//! Tree-shaped plumbing shared by the sampling-tree planners: parent-chain
//! extraction and padding a control sequence to the requested horizon.

use vstd::prelude::*;

verus! {

/// Marks a node without a parent in a search result's parent table.
pub const NO_PARENT: usize = usize::MAX;

/// `node` reaches `root` by following at most `fuel` parent links, each of
/// them present in `parents`.
pub open spec fn reaches_root(parents: Seq<usize>, node: int, root: int, fuel: nat) -> bool
    decreases fuel,
{
    if node == root {
        true
    } else if fuel == 0 {
        false
    } else {
        &&& 0 <= node < parents.len()
        &&& parents[node] != NO_PARENT
        &&& reaches_root(parents, parents[node] as int, root, (fuel - 1) as nat)
    }
}

/// The nodes on the way from `root` (excluded) down to `node` (included), in
/// root-to-leaf order.
pub open spec fn chain_to(parents: Seq<usize>, node: int, root: int, fuel: nat) -> Seq<usize>
    decreases fuel,
{
    if node == root || fuel == 0 {
        Seq::empty()
    } else {
        chain_to(parents, parents[node] as int, root, (fuel - 1) as nat).push(node as usize)
    }
}

/// A longer walk gives the same chain once the root is reached.
pub proof fn lemma_chain_fuel(parents: Seq<usize>, node: int, root: int, fuel: nat, more: nat)
    requires
        reaches_root(parents, node, root, fuel),
        fuel <= more,
    ensures
        reaches_root(parents, node, root, more),
        chain_to(parents, node, root, fuel) == chain_to(parents, node, root, more),
    decreases fuel,
{
    if node != root {
        lemma_chain_fuel(parents, parents[node] as int, root, (fuel - 1) as nat, (more - 1) as nat);
    }
}

/// A chain runs from a child of the root down to `node`: each node's parent
/// is the node before it, the first node's parent is the root, the last node
/// is `node`, and the root itself is not in it.
pub proof fn lemma_chain_links(parents: Seq<usize>, node: int, root: int, fuel: nat)
    requires
        reaches_root(parents, node, root, fuel),
        0 <= node <= usize::MAX,
        0 <= root <= usize::MAX,
    ensures
        ({
            let c = chain_to(parents, node, root, fuel);
            &&& node == root <==> c.len() == 0
            &&& c.len() > 0 ==> c[c.len() - 1] == node && parents[c[0] as int] == root
            &&& forall|k: int| 0 <= k < c.len() - 1 ==> parents[#[trigger] c[k + 1] as int] == c[k]
            &&& forall|k: int| 0 <= k < c.len() ==> #[trigger] c[k] != root
        }),
    decreases fuel,
{
    if node != root {
        let p = parents[node] as int;
        lemma_chain_links(parents, p, root, (fuel - 1) as nat);
        let prev = chain_to(parents, p, root, (fuel - 1) as nat);
        let c = chain_to(parents, node, root, fuel);
        assert(c == prev.push(node as usize));
        if prev.len() > 0 {
            assert(c[0] == prev[0]);
            assert(prev[prev.len() - 1] == p);
        }
        assert forall|k: int| 0 <= k < c.len() - 1 implies parents[#[trigger] c[k + 1] as int]
            == c[k] by {
            if k + 1 < prev.len() {
                assert(c[k + 1] == prev[k + 1]);
            }
        }
        assert forall|k: int| 0 <= k < c.len() implies #[trigger] c[k] != root by {
            if k < prev.len() {
                assert(c[k] == prev[k]);
            }
        }
    }
}

/// Walk parent links from `node` back to `root` and return the root-exclusive
/// node ids in root-to-leaf order.
pub fn parent_chain(node: usize, root: usize, parents: &Vec<usize>) -> (chain: Vec<usize>)
    requires
        exists|fuel: nat| reaches_root(parents@, node as int, root as int, fuel),
    ensures
        forall|fuel: nat|
            #[trigger] reaches_root(parents@, node as int, root as int, fuel) ==> chain@
                == chain_to(parents@, node as int, root as int, fuel),
        node == root <==> chain@.len() == 0,
        chain@.len() > 0 ==> chain@[chain@.len() - 1] == node && parents@[chain@[0] as int]
            == root,
        forall|k: int|
            0 <= k < chain@.len() - 1 ==> parents@[#[trigger] chain@[k + 1] as int] == chain@[k],
        forall|k: int| 0 <= k < chain@.len() ==> #[trigger] chain@[k] != root,
{
    let ghost fuel: nat = choose|fuel: nat| reaches_root(parents@, node as int, root as int, fuel);
    let mut reversed: Vec<usize> = Vec::new();
    let mut current = node;
    let ghost mut left: nat = fuel;
    while current != root
        invariant
            reaches_root(parents@, current as int, root as int, left),
            left + reversed.len() == fuel,
            chain_to(parents@, node as int, root as int, fuel) == chain_to(
                parents@,
                current as int,
                root as int,
                left,
            ) + reversed@.reverse(),
        decreases left,
    {
        let ghost before = reversed@;
        reversed.push(current);
        proof {
            assert(reversed@.reverse() =~= seq![current].add(before.reverse()));
            assert(chain_to(parents@, current as int, root as int, left) == chain_to(
                parents@,
                parents@[current as int] as int,
                root as int,
                (left - 1) as nat,
            ).push(current));
            assert(chain_to(parents@, node as int, root as int, fuel) =~= chain_to(
                parents@,
                parents@[current as int] as int,
                root as int,
                (left - 1) as nat,
            ) + reversed@.reverse());
            left = (left - 1) as nat;
        }
        current = parents[current];
    }
    let mut chain: Vec<usize> = Vec::new();
    let mut k = reversed.len();
    while k > 0
        invariant
            k <= reversed.len(),
            chain@ =~= reversed@.reverse().take((reversed.len() - k) as int),
        decreases k,
    {
        k = k - 1;
        chain.push(reversed[k]);
        assert(chain@ =~= reversed@.reverse().take((reversed.len() - k) as int));
    }
    proof {
        assert(chain@ =~= reversed@.reverse());
        assert forall|f: nat| #[trigger] reaches_root(parents@, node as int, root as int, f) implies chain@
            == chain_to(parents@, node as int, root as int, f) by {
            if f <= fuel {
                lemma_chain_fuel(parents@, node as int, root as int, f, fuel);
            } else {
                lemma_chain_fuel(parents@, node as int, root as int, fuel, f);
            }
        }
        lemma_chain_links(parents@, node as int, root as int, fuel);
    }
    chain
}

/// The control at tick `t` when `controls` is held at its last entry.
pub open spec fn held<T>(controls: Seq<T>, t: int) -> T {
    if t < controls.len() - 1 {
        controls[t]
    } else {
        controls[controls.len() - 1]
    }
}

/// `horizon` controls: `controls` itself, cut or extended by repeating its
/// last entry.
pub fn repeat_last_controls<T: Copy>(controls: &[T], horizon: usize) -> (padded: Vec<T>)
    requires
        horizon == 0 || controls@.len() > 0,
    ensures
        padded@.len() == horizon,
        forall|t: int| 0 <= t < horizon ==> #[trigger] padded@[t] == held(controls@, t),
{
    let mut padded: Vec<T> = Vec::new();
    let mut t: usize = 0;
    while t < horizon
        invariant
            t <= horizon,
            horizon == 0 || controls@.len() > 0,
            padded@.len() == t,
            forall|u: int| 0 <= u < t ==> #[trigger] padded@[u] == held(controls@, u),
        decreases horizon - t,
    {
        let last = controls.len() - 1;
        let index = if t < last {
            t
        } else {
            last
        };
        padded.push(controls[index]);
        t = t + 1;
    }
    padded
}

} // verus!
