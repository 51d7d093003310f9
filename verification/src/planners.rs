//! The planner catalog: which planners exist, their display names and
//! capabilities, and the command-line ids that select them.

use vstd::prelude::*;

use crate::text::{
    chars_equal_str, equivalent_names, lemma_normalize_equivalent, normalize, normalized,
};

verus! {

/// Number of planners in the catalog.
pub const PLANNER_COUNT: usize = 12;

/// Selects which planner to run.
#[derive(Debug, Clone, Copy, PartialEq, Eq, Structural, Hash)]
pub enum PlannerKind {
    Straight,
    Basic,
    BezierToppra,
    Lattice,
    Pi2Ddp,
    RrtStar,
    PredictiveSampling,
    Cem,
    Mppi,
    Rrt,
    Ilqr,
    Treetop,
}

/// The planner in row `i` of the catalog.
pub open spec fn row_kind(i: int) -> PlannerKind {
    if i == 0 {
        PlannerKind::Straight
    } else if i == 1 {
        PlannerKind::Basic
    } else if i == 2 {
        PlannerKind::BezierToppra
    } else if i == 3 {
        PlannerKind::Lattice
    } else if i == 4 {
        PlannerKind::Pi2Ddp
    } else if i == 5 {
        PlannerKind::RrtStar
    } else if i == 6 {
        PlannerKind::PredictiveSampling
    } else if i == 7 {
        PlannerKind::Cem
    } else if i == 8 {
        PlannerKind::Mppi
    } else if i == 9 {
        PlannerKind::Rrt
    } else if i == 10 {
        PlannerKind::Ilqr
    } else {
        PlannerKind::Treetop
    }
}

/// The display name in row `i` of the catalog.
pub open spec fn row_name(i: int) -> Seq<char> {
    if i == 0 {
        "straight (strawman)"@
    } else if i == 1 {
        "basic cubic"@
    } else if i == 2 {
        "bezier + TOPP-RA"@
    } else if i == 3 {
        "frenet lattice"@
    } else if i == 4 {
        "PI2-DDP"@
    } else if i == 5 {
        "RRT*"@
    } else if i == 6 {
        "predictive sampling (judo)"@
    } else if i == 7 {
        "CEM (judo)"@
    } else if i == 8 {
        "MPPI (judo)"@
    } else if i == 9 {
        "RRT (treetop tree)"@
    } else if i == 10 {
        "iLQR (finite diff)"@
    } else {
        "treetop (RRT+iLQR)"@
    }
}

/// Whether the planner in row `i` records introspection diagnostics.
pub open spec fn row_has_diagnostics(i: int) -> bool {
    i != 0 && i != 2
}

/// The command-line id in row `i` of the catalog.
pub open spec fn row_id(i: int) -> Seq<char> {
    if i == 0 {
        "straight"@
    } else if i == 1 {
        "basic"@
    } else if i == 2 {
        "bezier-toppra"@
    } else if i == 3 {
        "lattice"@
    } else if i == 4 {
        "pi2-ddp"@
    } else if i == 5 {
        "rrt-star"@
    } else if i == 6 {
        "predictive-sampling"@
    } else if i == 7 {
        "cem"@
    } else if i == 8 {
        "mppi"@
    } else if i == 9 {
        "rrt"@
    } else if i == 10 {
        "ilqr"@
    } else {
        "treetop"@
    }
}

/// The planner a normalized alias stands for, if it is one.
pub open spec fn alias_kind(n: Seq<char>) -> Option<PlannerKind> {
    if n == "bezier"@ {
        Some(PlannerKind::BezierToppra)
    } else if n == "frenet-lattice"@ {
        Some(PlannerKind::Lattice)
    } else if n == "pi2ddp"@ {
        Some(PlannerKind::Pi2Ddp)
    } else if n == "rrt*"@ {
        Some(PlannerKind::RrtStar)
    } else if n == "ps"@ {
        Some(PlannerKind::PredictiveSampling)
    } else {
        None
    }
}

/// The first catalog row, from `from` on, whose id is `n`.
pub open spec fn first_id_row(n: Seq<char>, from: int) -> Option<int>
    decreases PLANNER_COUNT - from,
{
    if from >= PLANNER_COUNT {
        None
    } else if row_id(from) == n {
        Some(from)
    } else {
        first_id_row(n, from + 1)
    }
}

/// The planner that the name `name` selects: an id of the catalog, else one of
/// the aliases, compared after normalization.
pub open spec fn planner_for_name(name: Seq<char>) -> Option<PlannerKind> {
    match first_id_row(normalize(name), 0) {
        Some(i) => Some(row_kind(i)),
        None => alias_kind(normalize(name)),
    }
}

/// One row of the planner catalog: everything about a planner besides how to
/// construct it.
#[derive(Debug, Clone, Copy)]
pub struct PlannerSpec {
    pub kind: PlannerKind,
    pub name: &'static str,
    pub has_diagnostics: bool,
}

/// Row `i` of the planner catalog.
pub fn planner_spec_row(i: usize) -> (row: PlannerSpec)
    requires
        i < PLANNER_COUNT,
    ensures
        row.kind == row_kind(i as int),
        row.name@ == row_name(i as int),
        row.has_diagnostics == row_has_diagnostics(i as int),
{
    if i == 0 {
        PlannerSpec { kind: PlannerKind::Straight, name: "straight (strawman)", has_diagnostics: false }
    } else if i == 1 {
        PlannerSpec { kind: PlannerKind::Basic, name: "basic cubic", has_diagnostics: true }
    } else if i == 2 {
        PlannerSpec { kind: PlannerKind::BezierToppra, name: "bezier + TOPP-RA", has_diagnostics: false }
    } else if i == 3 {
        PlannerSpec { kind: PlannerKind::Lattice, name: "frenet lattice", has_diagnostics: true }
    } else if i == 4 {
        PlannerSpec { kind: PlannerKind::Pi2Ddp, name: "PI2-DDP", has_diagnostics: true }
    } else if i == 5 {
        PlannerSpec { kind: PlannerKind::RrtStar, name: "RRT*", has_diagnostics: true }
    } else if i == 6 {
        PlannerSpec {
            kind: PlannerKind::PredictiveSampling,
            name: "predictive sampling (judo)",
            has_diagnostics: true,
        }
    } else if i == 7 {
        PlannerSpec { kind: PlannerKind::Cem, name: "CEM (judo)", has_diagnostics: true }
    } else if i == 8 {
        PlannerSpec { kind: PlannerKind::Mppi, name: "MPPI (judo)", has_diagnostics: true }
    } else if i == 9 {
        PlannerSpec { kind: PlannerKind::Rrt, name: "RRT (treetop tree)", has_diagnostics: true }
    } else if i == 10 {
        PlannerSpec { kind: PlannerKind::Ilqr, name: "iLQR (finite diff)", has_diagnostics: true }
    } else {
        PlannerSpec { kind: PlannerKind::Treetop, name: "treetop (RRT+iLQR)", has_diagnostics: true }
    }
}

/// The command-line id in row `i` of the catalog.
pub fn planner_id_row(i: usize) -> (id: &'static str)
    requires
        i < PLANNER_COUNT,
    ensures
        id@ == row_id(i as int),
{
    if i == 0 {
        "straight"
    } else if i == 1 {
        "basic"
    } else if i == 2 {
        "bezier-toppra"
    } else if i == 3 {
        "lattice"
    } else if i == 4 {
        "pi2-ddp"
    } else if i == 5 {
        "rrt-star"
    } else if i == 6 {
        "predictive-sampling"
    } else if i == 7 {
        "cem"
    } else if i == 8 {
        "mppi"
    } else if i == 9 {
        "rrt"
    } else if i == 10 {
        "ilqr"
    } else {
        "treetop"
    }
}

impl PlannerKind {
    /// The catalog row of this planner.
    pub open spec fn row(self) -> int {
        match self {
            PlannerKind::Straight => 0,
            PlannerKind::Basic => 1,
            PlannerKind::BezierToppra => 2,
            PlannerKind::Lattice => 3,
            PlannerKind::Pi2Ddp => 4,
            PlannerKind::RrtStar => 5,
            PlannerKind::PredictiveSampling => 6,
            PlannerKind::Cem => 7,
            PlannerKind::Mppi => 8,
            PlannerKind::Rrt => 9,
            PlannerKind::Ilqr => 10,
            PlannerKind::Treetop => 11,
        }
    }

    /// The catalog row of this planner, as an executable index.
    pub fn index(self) -> (i: usize)
        ensures
            i == self.row(),
            i < PLANNER_COUNT,
    {
        match self {
            PlannerKind::Straight => 0,
            PlannerKind::Basic => 1,
            PlannerKind::BezierToppra => 2,
            PlannerKind::Lattice => 3,
            PlannerKind::Pi2Ddp => 4,
            PlannerKind::RrtStar => 5,
            PlannerKind::PredictiveSampling => 6,
            PlannerKind::Cem => 7,
            PlannerKind::Mppi => 8,
            PlannerKind::Rrt => 9,
            PlannerKind::Ilqr => 10,
            PlannerKind::Treetop => 11,
        }
    }

    /// Every planner, in catalog order.
    pub fn all() -> (kinds: Vec<PlannerKind>)
        ensures
            kinds@.len() == PLANNER_COUNT,
            forall|i: int| 0 <= i < PLANNER_COUNT ==> #[trigger] kinds@[i] == row_kind(i),
    {
        let mut kinds: Vec<PlannerKind> = Vec::new();
        let mut i: usize = 0;
        while i < PLANNER_COUNT
            invariant
                i <= PLANNER_COUNT,
                kinds@.len() == i,
                forall|j: int| 0 <= j < i ==> #[trigger] kinds@[j] == row_kind(j),
            decreases PLANNER_COUNT - i,
        {
            kinds.push(planner_spec_row(i).kind);
            i = i + 1;
        }
        kinds
    }

    /// This planner's row of the catalog.
    pub fn planner_spec(self) -> (row: PlannerSpec)
        ensures
            row.kind == self,
            row.name@ == row_name(self.row()),
            row.has_diagnostics == row_has_diagnostics(self.row()),
    {
        planner_spec_row(self.index())
    }

    /// Display name of this planner.
    pub fn name(self) -> (name: &'static str)
        ensures
            name@ == row_name(self.row()),
    {
        self.planner_spec().name
    }

    /// Whether this planner records introspection diagnostics.
    pub fn has_diagnostics(self) -> (has: bool)
        ensures
            has == row_has_diagnostics(self.row()),
            has == (self != PlannerKind::Straight && self != PlannerKind::BezierToppra),
    {
        proof {
            lemma_planners_with_diagnostics(self);
        }
        self.planner_spec().has_diagnostics
    }
}

/// The catalog rows and the planner kinds correspond one to one: row `i`
/// describes the planner whose row is `i`, and every planner's row describes
/// that planner.
pub proof fn lemma_rows_align_with_kinds()
    ensures
        forall|i: int| 0 <= i < PLANNER_COUNT ==> #[trigger] row_kind(i).row() == i,
        forall|k: PlannerKind| #[trigger] row_kind(k.row()) == k,
        forall|k: PlannerKind| 0 <= #[trigger] k.row() < PLANNER_COUNT,
{
}

/// The command-line ids of every planner, in catalog order.
pub fn planner_ids() -> (ids: Vec<&'static str>)
    ensures
        ids@.len() == PLANNER_COUNT,
        forall|i: int| 0 <= i < PLANNER_COUNT ==> (#[trigger] ids@[i])@ == row_id(i),
{
    let mut ids: Vec<&'static str> = Vec::new();
    let mut i: usize = 0;
    while i < PLANNER_COUNT
        invariant
            i <= PLANNER_COUNT,
            ids@.len() == i,
            forall|j: int| 0 <= j < i ==> (#[trigger] ids@[j])@ == row_id(j),
        decreases PLANNER_COUNT - i,
    {
        ids.push(planner_id_row(i));
        i = i + 1;
    }
    ids
}

/// The planner that `name` selects: a catalog id or an alias, compared after
/// ASCII lower-casing and mapping `_` and space to `-`.
pub fn planner_kind(name: &str) -> (kind: Option<PlannerKind>)
    ensures
        kind == planner_for_name(name@),
{
    let n = normalized(name);
    let mut i: usize = 0;
    while i < PLANNER_COUNT
        invariant
            i <= PLANNER_COUNT,
            n@ == normalize(name@),
            first_id_row(n@, 0) == first_id_row(n@, i as int),
        decreases PLANNER_COUNT - i,
    {
        if chars_equal_str(&n, planner_id_row(i)) {
            return Some(planner_spec_row(i).kind);
        }
        i = i + 1;
    }
    if chars_equal_str(&n, "bezier") {
        Some(PlannerKind::BezierToppra)
    } else if chars_equal_str(&n, "frenet-lattice") {
        Some(PlannerKind::Lattice)
    } else if chars_equal_str(&n, "pi2ddp") {
        Some(PlannerKind::Pi2Ddp)
    } else if chars_equal_str(&n, "rrt*") {
        Some(PlannerKind::RrtStar)
    } else if chars_equal_str(&n, "ps") {
        Some(PlannerKind::PredictiveSampling)
    } else {
        None
    }
}

/// A name that is already in normal form: no ASCII upper-case letter, no `_`
/// and no space.
pub open spec fn is_normal(s: Seq<char>) -> bool {
    forall|k: int| 0 <= k < s.len() ==> !('A' <= #[trigger] s[k] <= 'Z') && s[k] != '_' && s[k]
        != ' '
}

/// Normalizing a name in normal form leaves it unchanged.
pub proof fn lemma_normal_is_fixed(s: Seq<char>)
    requires
        is_normal(s),
    ensures
        normalize(s) == s,
{
    assert(normalize(s) =~= s);
}

/// The catalog ids are in normal form and pairwise distinct.
pub proof fn lemma_ids_normal_and_distinct()
    ensures
        forall|i: int| 0 <= i < PLANNER_COUNT ==> is_normal(#[trigger] row_id(i)),
        forall|i: int, j: int|
            0 <= i < j < PLANNER_COUNT ==> #[trigger] row_id(i) != #[trigger] row_id(j),
{
    reveal_strlit("straight");
    reveal_strlit("basic");
    reveal_strlit("bezier-toppra");
    reveal_strlit("lattice");
    reveal_strlit("pi2-ddp");
    reveal_strlit("rrt-star");
    reveal_strlit("predictive-sampling");
    reveal_strlit("cem");
    reveal_strlit("mppi");
    reveal_strlit("rrt");
    reveal_strlit("ilqr");
    reveal_strlit("treetop");
    assert forall|i: int| 0 <= i < PLANNER_COUNT implies is_normal(#[trigger] row_id(i)) by {
        let s = row_id(i);
        assert forall|k: int| 0 <= k < s.len() implies !('A' <= #[trigger] s[k] <= 'Z') && s[k]
            != '_' && s[k] != ' ' by {}
    }
    assert forall|i: int, j: int| 0 <= i < j < PLANNER_COUNT implies #[trigger] row_id(i)
        != #[trigger] row_id(j) by {
        if row_id(i).len() == row_id(j).len() {
            assert(row_id(i)[0] != row_id(j)[0] || row_id(i)[1] != row_id(j)[1]);
        }
    }
}

/// Every planner is selected by its own command-line id.
pub proof fn lemma_id_selects_planner(k: PlannerKind)
    ensures
        planner_for_name(row_id(k.row())) == Some(k),
{
    lemma_ids_normal_and_distinct();
    let i = k.row();
    lemma_normal_is_fixed(row_id(i));
    assert forall|m: int| 0 <= m < i implies row_id(m) != row_id(i) by {
        assert(row_id(m) != row_id(i));
    }
    lemma_first_id_row_from(row_id(i), 0, i);
}

/// Searching from `j` finds row `i` when row `i` matches and no row between
/// does.
proof fn lemma_first_id_row_from(n: Seq<char>, j: int, i: int)
    requires
        0 <= j <= i < PLANNER_COUNT,
        row_id(i) == n,
        forall|m: int| j <= m < i ==> row_id(m) != n,
    ensures
        first_id_row(n, j) == Some(i),
    decreases i - j,
{
    if j < i {
        lemma_first_id_row_from(n, j + 1, i);
    }
}

/// The display name and command-line id of each planner.
pub proof fn lemma_planner_names_and_ids(k: PlannerKind)
    ensures
        row_name(k.row()) == match k {
            PlannerKind::Straight => "straight (strawman)"@,
            PlannerKind::Basic => "basic cubic"@,
            PlannerKind::BezierToppra => "bezier + TOPP-RA"@,
            PlannerKind::Lattice => "frenet lattice"@,
            PlannerKind::Pi2Ddp => "PI2-DDP"@,
            PlannerKind::RrtStar => "RRT*"@,
            PlannerKind::PredictiveSampling => "predictive sampling (judo)"@,
            PlannerKind::Cem => "CEM (judo)"@,
            PlannerKind::Mppi => "MPPI (judo)"@,
            PlannerKind::Rrt => "RRT (treetop tree)"@,
            PlannerKind::Ilqr => "iLQR (finite diff)"@,
            PlannerKind::Treetop => "treetop (RRT+iLQR)"@,
        },
        row_id(k.row()) == match k {
            PlannerKind::Straight => "straight"@,
            PlannerKind::Basic => "basic"@,
            PlannerKind::BezierToppra => "bezier-toppra"@,
            PlannerKind::Lattice => "lattice"@,
            PlannerKind::Pi2Ddp => "pi2-ddp"@,
            PlannerKind::RrtStar => "rrt-star"@,
            PlannerKind::PredictiveSampling => "predictive-sampling"@,
            PlannerKind::Cem => "cem"@,
            PlannerKind::Mppi => "mppi"@,
            PlannerKind::Rrt => "rrt"@,
            PlannerKind::Ilqr => "ilqr"@,
            PlannerKind::Treetop => "treetop"@,
        },
{
}

/// Every planner records introspection diagnostics except the straight
/// strawman and the Bezier + TOPP-RA planner.
pub proof fn lemma_planners_with_diagnostics(k: PlannerKind)
    ensures
        row_has_diagnostics(k.row()) <==> (k != PlannerKind::Straight && k
            != PlannerKind::BezierToppra),
{
}

/// The catalog lists every planner once, in this order.
pub proof fn lemma_catalog_order()
    ensures
        row_kind(0) == PlannerKind::Straight,
        row_kind(1) == PlannerKind::Basic,
        row_kind(2) == PlannerKind::BezierToppra,
        row_kind(3) == PlannerKind::Lattice,
        row_kind(4) == PlannerKind::Pi2Ddp,
        row_kind(5) == PlannerKind::RrtStar,
        row_kind(6) == PlannerKind::PredictiveSampling,
        row_kind(7) == PlannerKind::Cem,
        row_kind(8) == PlannerKind::Mppi,
        row_kind(9) == PlannerKind::Rrt,
        row_kind(10) == PlannerKind::Ilqr,
        row_kind(11) == PlannerKind::Treetop,
{
}

/// Names that differ only in ASCII case or in their word separators (`_`,
/// space, `-`) select the same planner.
pub proof fn lemma_planner_name_case_insensitive(s: Seq<char>, t: Seq<char>)
    requires
        equivalent_names(s, t),
    ensures
        planner_for_name(s) == planner_for_name(t),
{
    lemma_normalize_equivalent(s, t);
}

/// The aliases select their planners, whatever the case and separators of the
/// name: `bezier`, `frenet-lattice`, `pi2ddp`, `rrt*` and `ps`.
pub proof fn lemma_aliases(name: Seq<char>)
    ensures
        normalize(name) == "bezier"@ ==> planner_for_name(name) == Some(PlannerKind::BezierToppra),
        normalize(name) == "frenet-lattice"@ ==> planner_for_name(name) == Some(
            PlannerKind::Lattice,
        ),
        normalize(name) == "pi2ddp"@ ==> planner_for_name(name) == Some(PlannerKind::Pi2Ddp),
        normalize(name) == "rrt*"@ ==> planner_for_name(name) == Some(PlannerKind::RrtStar),
        normalize(name) == "ps"@ ==> planner_for_name(name) == Some(
            PlannerKind::PredictiveSampling,
        ),
{
    let n = normalize(name);
    reveal_strlit("bezier");
    reveal_strlit("frenet-lattice");
    reveal_strlit("pi2ddp");
    reveal_strlit("rrt*");
    reveal_strlit("ps");
    assert("bezier"@.len() == 6 && "frenet-lattice"@.len() == 14 && "pi2ddp"@.len() == 6
        && "rrt*"@.len() == 4 && "ps"@.len() == 2);
    assert("bezier"@[0] == 'b' && "pi2ddp"@[0] == 'p');
    if n == "bezier"@ || n == "frenet-lattice"@ || n == "pi2ddp"@ || n == "rrt*"@ || n == "ps"@ {
        lemma_no_id_row(n);
        assert(planner_for_name(name) == alias_kind(n));
    }
}

/// None of the aliases is a catalog id.
proof fn lemma_no_id_row(n: Seq<char>)
    requires
        n == "bezier"@ || n == "frenet-lattice"@ || n == "pi2ddp"@ || n == "rrt*"@ || n == "ps"@,
    ensures
        first_id_row(n, 0) is None,
{
    reveal_strlit("straight");
    reveal_strlit("basic");
    reveal_strlit("bezier-toppra");
    reveal_strlit("lattice");
    reveal_strlit("pi2-ddp");
    reveal_strlit("rrt-star");
    reveal_strlit("predictive-sampling");
    reveal_strlit("cem");
    reveal_strlit("mppi");
    reveal_strlit("rrt");
    reveal_strlit("ilqr");
    reveal_strlit("treetop");
    reveal_strlit("bezier");
    reveal_strlit("frenet-lattice");
    reveal_strlit("pi2ddp");
    reveal_strlit("rrt*");
    reveal_strlit("ps");
    assert forall|i: int| 0 <= i < PLANNER_COUNT implies #[trigger] row_id(i) != n by {
        if row_id(i).len() == n.len() {
            assert(row_id(i)[0] != n[0] || row_id(i)[1] != n[1] || row_id(i)[2] != n[2]);
        }
    }
    lemma_first_id_row_none(n, 0);
}

/// No row from `j` on matches when none of them has id `n`.
proof fn lemma_first_id_row_none(n: Seq<char>, j: int)
    requires
        0 <= j,
        forall|i: int| 0 <= i < PLANNER_COUNT ==> #[trigger] row_id(i) != n,
    ensures
        first_id_row(n, j) is None,
    decreases PLANNER_COUNT - j,
{
    if j < PLANNER_COUNT {
        lemma_first_id_row_none(n, j + 1);
    }
}

} // verus!
