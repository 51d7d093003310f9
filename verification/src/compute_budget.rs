//! Planner-independent share of a calibrated planning allowance.

use vstd::prelude::*;

verus! {

/// The nominal budget, in percent of the calibrated 100 ms workload.
pub const NOMINAL_COMPUTE_BUDGET_PERCENT: u16 = 100;

/// Smallest budget a caller can request, in percent.
pub const MIN_COMPUTE_BUDGET_PERCENT: u16 = 5;

/// Largest budget a caller can request, in percent.
pub const MAX_COMPUTE_BUDGET_PERCENT: u16 = 500;

/// The budget steps offered to users, in percent, smallest first.
pub const COMPUTE_BUDGET_BREAKPOINTS: [u16; 7] = [5, 10, 20, 50, 100, 200, 500];

/// The breakpoints as a sequence of integers.
pub open spec fn breakpoints() -> Seq<int> {
    seq![5int, 10, 20, 50, NOMINAL_COMPUTE_BUDGET_PERCENT as int, 200, 500]
}

/// The executable table holds exactly the breakpoints.
pub proof fn lemma_breakpoint_table()
    ensures
        COMPUTE_BUDGET_BREAKPOINTS@.len() == breakpoints().len(),
        forall|i: int|
            0 <= i < breakpoints().len() ==> COMPUTE_BUDGET_BREAKPOINTS@[i] as int
                == #[trigger] breakpoints()[i],
{
}

/// The breakpoints increase strictly, start at the smallest supported budget,
/// end at the largest, and include the nominal budget.
pub proof fn lemma_breakpoints_strictly_increasing()
    ensures
        forall|i: int, j: int|
            0 <= i < j < breakpoints().len() ==> breakpoints()[i] < breakpoints()[j],
        breakpoints()[0] == MIN_COMPUTE_BUDGET_PERCENT,
        breakpoints()[breakpoints().len() - 1] == MAX_COMPUTE_BUDGET_PERCENT,
        breakpoints().contains(NOMINAL_COMPUTE_BUDGET_PERCENT as int),
{
    assert(breakpoints()[4] == NOMINAL_COMPUTE_BUDGET_PERCENT as int);
}

/// A compute allowance in whole percent of the nominal planning workload.
/// Each planner converts this into its own useful unit (usually samples).
#[derive(Debug, Clone, Copy, PartialEq, Eq, Structural)]
pub struct ComputeBudget(u16);

/// `lo <= x <= hi` clamp on mathematical integers.
pub open spec fn clamp_int(x: int, lo: int, hi: int) -> int {
    if x < lo { lo } else if x > hi { hi } else { x }
}

/// `max(a, b)` on mathematical integers.
pub open spec fn max_int(a: int, b: int) -> int {
    if a >= b { a } else { b }
}

/// Work scaled by a budget of `percent`, never below `minimum`.
pub open spec fn scaled_work(percent: int, at_100_ms: int, minimum: int) -> int {
    max_int(at_100_ms * percent / NOMINAL_COMPUTE_BUDGET_PERCENT as int, minimum)
}

impl ComputeBudget {
    /// Every budget lies in the supported range.
    #[verifier::type_invariant]
    closed spec fn in_range(self) -> bool {
        MIN_COMPUTE_BUDGET_PERCENT <= self.0 <= MAX_COMPUTE_BUDGET_PERCENT
    }

    /// The percentage this budget stands for.
    pub closed spec fn percent(self) -> int {
        self.0 as int
    }

    /// The nominal 100 % budget.
    pub fn nominal() -> (b: Self)
        ensures
            b.percent() == NOMINAL_COMPUTE_BUDGET_PERCENT,
    {
        ComputeBudget(NOMINAL_COMPUTE_BUDGET_PERCENT)
    }

    /// Budget for a requested percentage that has already been rounded to a
    /// whole number; it is clamped to the supported range.
    pub fn from_percent(percent: i64) -> (b: Self)
        ensures
            b.percent() == clamp_int(
                percent as int,
                MIN_COMPUTE_BUDGET_PERCENT as int,
                MAX_COMPUTE_BUDGET_PERCENT as int,
            ),
    {
        if percent < MIN_COMPUTE_BUDGET_PERCENT as i64 {
            ComputeBudget(MIN_COMPUTE_BUDGET_PERCENT)
        } else if percent > MAX_COMPUTE_BUDGET_PERCENT as i64 {
            ComputeBudget(MAX_COMPUTE_BUDGET_PERCENT)
        } else {
            ComputeBudget(percent as u16)
        }
    }

    /// The percentage as an executable value.
    pub fn as_percent(self) -> (p: u16)
        ensures
            p == self.percent(),
            MIN_COMPUTE_BUDGET_PERCENT <= p <= MAX_COMPUTE_BUDGET_PERCENT,
    {
        proof {
            use_type_invariant(&self);
        }
        self.0
    }

    /// Scale a planner's offline-calibrated 100 ms workload.
    pub fn scale(self, at_100_ms: usize, minimum: usize) -> (work: usize)
        requires
            at_100_ms * self.percent() <= usize::MAX,
        ensures
            work == scaled_work(self.percent(), at_100_ms as int, minimum as int),
    {
        let product = at_100_ms * (self.0 as usize);
        let scaled = product / (NOMINAL_COMPUTE_BUDGET_PERCENT as usize);
        if scaled >= minimum {
            scaled
        } else {
            minimum
        }
    }
}

} // verus!
