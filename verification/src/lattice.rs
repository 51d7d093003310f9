//! Node indexing of the sparse Frenet space-time lattice.
//!
//! Lattice nodes sample `(station, lateral, speed)` at one-second time layers.
//! Node 0 is the ego; every grid node has an id of at least 1.

use vstd::prelude::*;

verus! {

/// Planner ticks in the receding planning horizon (10 s at 0.1 s per tick).
pub const PLANNING_TICKS: usize = 100;

/// Planner ticks covered by one lattice edge.
pub const TICKS_PER_EDGE: usize = 10;

/// One-second time layers of the lattice.
pub const TIME_LAYERS: usize = 10;

/// Station breakpoints per layer.
pub const S_BREAKPOINTS: usize = 5;

/// Lateral breakpoints per layer.
pub const D_BREAKPOINTS: usize = 8;

/// Speed breakpoints per layer.
pub const V_BREAKPOINTS: usize = 5;

/// Grid nodes over all layers, the ego node excluded.
pub const GRID_NODES: usize = 2000;

/// Edges the lattice may evaluate in one plan: the declared real-time bound.
pub const MAX_EVALUATED_SEGMENTS: usize = 1_000;

/// The lattice dimensions agree with each other.
pub proof fn lemma_lattice_dimensions()
    ensures
        PLANNING_TICKS % TICKS_PER_EDGE == 0,
        TIME_LAYERS == PLANNING_TICKS / TICKS_PER_EDGE,
        GRID_NODES == TIME_LAYERS * S_BREAKPOINTS * D_BREAKPOINTS * V_BREAKPOINTS,
{
}

/// The id of grid node `(layer, si, di, vi)`.
pub open spec fn spec_node_id(layer: int, si: int, di: int, vi: int) -> int {
    1 + (((layer * S_BREAKPOINTS + si) * D_BREAKPOINTS + di) * V_BREAKPOINTS + vi)
}

/// The coordinates `(layer, si, di, vi)` of the node with id `node`.
pub open spec fn spec_decode_node(node: int) -> (int, int, int, int) {
    let i = node - 1;
    let vi = i % V_BREAKPOINTS as int;
    let i1 = i / V_BREAKPOINTS as int;
    let di = i1 % D_BREAKPOINTS as int;
    let i2 = i1 / D_BREAKPOINTS as int;
    let si = i2 % S_BREAKPOINTS as int;
    (i2 / S_BREAKPOINTS as int, si, di, vi)
}

/// Id of the lattice node at station `si`, lateral `di` and speed `vi` of
/// time layer `layer`.
pub fn node_id(layer: usize, si: usize, di: usize, vi: usize) -> (id: usize)
    requires
        spec_node_id(layer as int, si as int, di as int, vi as int) <= usize::MAX,
    ensures
        id == spec_node_id(layer as int, si as int, di as int, vi as int),
{
    assert(0 <= layer * S_BREAKPOINTS <= layer * S_BREAKPOINTS + si) by (nonlinear_arith);
    assert(0 <= (layer * S_BREAKPOINTS + si) * D_BREAKPOINTS <= (layer * S_BREAKPOINTS + si)
        * D_BREAKPOINTS + di) by (nonlinear_arith);
    assert(0 <= ((layer * S_BREAKPOINTS + si) * D_BREAKPOINTS + di) * V_BREAKPOINTS) by (nonlinear_arith);
    1 + (((layer * S_BREAKPOINTS + si) * D_BREAKPOINTS + di) * V_BREAKPOINTS + vi)
}

/// Coordinates `(layer, si, di, vi)` of a grid node id.
pub fn decode_node(node: usize) -> (coords: (usize, usize, usize, usize))
    requires
        node >= 1,
    ensures
        (coords.0 as int, coords.1 as int, coords.2 as int, coords.3 as int) == spec_decode_node(
            node as int,
        ),
{
    let mut i = node - 1;
    let vi = i % V_BREAKPOINTS;
    i = i / V_BREAKPOINTS;
    let di = i % D_BREAKPOINTS;
    i = i / D_BREAKPOINTS;
    let si = i % S_BREAKPOINTS;
    (i / S_BREAKPOINTS, si, di, vi)
}

/// Decoding an id gives back the coordinates it was made from.
pub proof fn lemma_decode_node_id(layer: nat, si: nat, di: nat, vi: nat)
    requires
        si < S_BREAKPOINTS,
        di < D_BREAKPOINTS,
        vi < V_BREAKPOINTS,
    ensures
        spec_node_id(layer as int, si as int, di as int, vi as int) >= 1,
        spec_decode_node(spec_node_id(layer as int, si as int, di as int, vi as int)) == (
            layer as int,
            si as int,
            di as int,
            vi as int,
        ),
{
    let a = layer * 5 + si;
    let b = a * 8 + di;
    let c = b * 5 + vi;
    assert(c % 5 == vi as int && c / 5 == b) by (nonlinear_arith)
        requires
            c == b * 5 + vi,
            vi < 5,
            b >= 0,
    ;
    assert(b % 8 == di as int && b / 8 == a) by (nonlinear_arith)
        requires
            b == a * 8 + di,
            di < 8,
            a >= 0,
    ;
    assert(a % 5 == si as int && a / 5 == layer) by (nonlinear_arith)
        requires
            a == layer * 5 + si,
            si < 5,
    ;
}

/// Every id of at least 1 is the id of the coordinates it decodes to, and
/// those coordinates lie within the breakpoint ranges.
pub proof fn lemma_node_id_decode(node: int)
    requires
        node >= 1,
    ensures
        ({
            let (layer, si, di, vi) = spec_decode_node(node);
            &&& layer >= 0
            &&& 0 <= si < S_BREAKPOINTS
            &&& 0 <= di < D_BREAKPOINTS
            &&& 0 <= vi < V_BREAKPOINTS
            &&& spec_node_id(layer, si, di, vi) == node
        }),
{
    let i = node - 1;
    let i1 = i / 5;
    let i2 = i1 / 8;
    assert(i == i1 * 5 + i % 5 && 0 <= i % 5 < 5 && i1 >= 0) by (nonlinear_arith)
        requires
            i >= 0,
            i1 == i / 5,
    ;
    assert(i1 == i2 * 8 + i1 % 8 && 0 <= i1 % 8 < 8 && i2 >= 0) by (nonlinear_arith)
        requires
            i1 >= 0,
            i2 == i1 / 8,
    ;
    assert(i2 == (i2 / 5) * 5 + i2 % 5 && 0 <= i2 % 5 < 5 && i2 / 5 >= 0) by (nonlinear_arith)
        requires
            i2 >= 0,
    ;
}

/// The grid ids are exactly `1..=GRID_NODES`: an id decodes into the first
/// `TIME_LAYERS` layers iff it is at most `GRID_NODES`.
pub proof fn lemma_grid_ids_in_range(node: int)
    requires
        node >= 1,
    ensures
        spec_decode_node(node).0 < TIME_LAYERS <==> node <= GRID_NODES,
{
    let i = node - 1;
    assert((i / 5) / 8 == i / 40) by (nonlinear_arith)
        requires
            i >= 0,
    ;
    assert((i / 40) / 5 == i / 200) by (nonlinear_arith)
        requires
            i >= 0,
    ;
    assert(i / 200 < 10 <==> i < 2000) by (nonlinear_arith)
        requires
            i >= 0,
    ;
}

/// Lower and upper end of the index neighborhood `i-1 ..= i+1` clipped to
/// `0 ..= n-1`.
pub open spec fn neighborhood_bounds(i: int, n: int) -> (int, int) {
    (if i >= 1 { i - 1 } else { 0 }, if i + 1 <= n - 1 { i + 1 } else { n - 1 })
}

/// The indices from `lo` to `hi`, both included, in increasing order.
pub open spec fn index_range(lo: int, hi: int) -> Seq<usize> {
    Seq::new(if hi >= lo { (hi - lo + 1) as nat } else { 0 }, |k: int| (lo + k) as usize)
}

/// The breakpoint indices next to `i` (itself included) among `n` breakpoints,
/// in increasing order.
pub fn neighborhood(i: usize, n: usize) -> (indices: Vec<usize>)
    requires
        n >= 1,
        i < usize::MAX,
    ensures
        indices@ == index_range(neighborhood_bounds(i as int, n as int).0, neighborhood_bounds(
            i as int,
            n as int,
        ).1),
        forall|k: usize| #[trigger] indices@.contains(k) <==> (k < n && i <= k + 1 && k <= i + 1),
        forall|a: int, b: int| 0 <= a < b < indices@.len() ==> indices@[a] < indices@[b],
{
    proof {
        lemma_neighborhood_members(
            i as int,
            n as int,
            neighborhood_bounds(i as int, n as int).0,
            neighborhood_bounds(i as int, n as int).1,
        );
    }
    let lo = if i >= 1 {
        i - 1
    } else {
        0
    };
    let hi = if i + 1 <= n - 1 {
        i + 1
    } else {
        n - 1
    };
    let mut indices: Vec<usize> = Vec::new();
    if hi < lo {
        assert(indices@ =~= index_range(lo as int, hi as int));
        return indices;
    }
    let mut k = lo;
    while k <= hi
        invariant
            lo <= k,
            k <= hi + 1,
            hi < usize::MAX,
            indices@ == index_range(lo as int, k as int - 1),
        decreases hi + 1 - k,
    {
        indices.push(k);
        assert(indices@ =~= index_range(lo as int, k as int));
        k = k + 1;
    }
    assert(indices@ =~= index_range(lo as int, hi as int));
    proof {
        lemma_neighborhood_members(i as int, n as int, lo as int, hi as int);
    }
    indices
}

/// The neighborhood of index `i` among `n` breakpoints holds exactly the
/// valid indices at distance at most 1 from `i`, in increasing order.
pub proof fn lemma_neighborhood_members(i: int, n: int, lo: int, hi: int)
    requires
        1 <= n <= usize::MAX,
        i >= 0,
        (lo, hi) == neighborhood_bounds(i, n),
    ensures
        forall|k: usize| #[trigger]
            index_range(lo, hi).contains(k) <==> (k < n && i <= k + 1 && k <= i + 1),
        forall|a: int, b: int|
            0 <= a < b < index_range(lo, hi).len() ==> index_range(lo, hi)[a] < index_range(
                lo,
                hi,
            )[b],
{
    let r = index_range(lo, hi);
    assert forall|k: usize| #[trigger] r.contains(k) <==> (k < n && i <= k + 1 && k <= i + 1) by {
        if k < n && i <= k + 1 && k <= i + 1 {
            assert(r[k - lo] == k);
        }
        if r.contains(k) {
            let j = choose|j: int| 0 <= j < r.len() && r[j] == k;
            assert(r[j] == lo + j);
        }
    }
}

/// The neighborhood of a breakpoint holds that breakpoint, at most three
/// indices in all, and only valid breakpoint indices.
pub proof fn lemma_neighborhood_within(i: int, n: int)
    requires
        0 <= i < n,
    ensures
        index_range(neighborhood_bounds(i, n).0, neighborhood_bounds(i, n).1).contains(
            i as usize,
        ),
        index_range(neighborhood_bounds(i, n).0, neighborhood_bounds(i, n).1).len() <= 3,
        forall|k: int|
            0 <= k < index_range(neighborhood_bounds(i, n).0, neighborhood_bounds(i, n).1).len()
                ==> #[trigger] index_range(
                neighborhood_bounds(i, n).0,
                neighborhood_bounds(i, n).1,
            )[k] < n,
{
    let (lo, hi) = neighborhood_bounds(i, n);
    assert(index_range(lo, hi)[i - lo] == i as usize);
}

} // verus!
