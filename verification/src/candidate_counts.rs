//! How many candidates the sampling planners evaluate for a compute budget.

use vstd::prelude::*;

use crate::compute_budget::{scaled_work, ComputeBudget};

verus! {

/// Road-following Bezier paths evaluated at the nominal budget.
pub const NOMINAL_PATHS: usize = 9;

/// Samples per variable-density axis of the Frenet polynomial grid at the
/// nominal budget.
pub const NOMINAL_GRID_SAMPLES: usize = 11;

/// `r` is the integer square root of `n`: the largest `r` with `r² <= n`.
pub open spec fn is_floor_sqrt(n: int, r: int) -> bool {
    0 <= r && r * r <= n < (r + 1) * (r + 1)
}

/// `r` is `∛n` rounded to the nearest integer, halves away from zero:
/// `(r - ½)³ <= n < (r + ½)³`, scaled by eight to stay in the integers.
pub open spec fn is_rounded_cbrt(n: int, r: int) -> bool {
    0 <= r && (2 * r - 1) * (2 * r - 1) * (2 * r - 1) <= 8 * n < (2 * r + 1) * (2 * r + 1) * (2
        * r + 1)
}

/// The largest odd number not above `c`, and 1 when `c` is 0.
pub open spec fn odd_floor(c: int) -> int {
    if c <= 1 {
        1
    } else {
        (c - 1) / 2 * 2 + 1
    }
}

/// Integer square root of `n`, rounded down.
pub fn floor_sqrt(n: u64) -> (r: u64)
    requires
        n <= u32::MAX,
    ensures
        is_floor_sqrt(n as int, r as int),
        r <= 0x1_0000,
{
    let mut r: u64 = 0;
    loop
        invariant
            r * r <= n <= u32::MAX,
            r < 0x1_0000,
        ensures
            is_floor_sqrt(n as int, r as int),
            r <= 0x1_0000,
        decreases 0x1_0000 - r,
    {
        let next = r + 1;
        assert(next * next <= 0x1_0000 * 0x1_0000) by (nonlinear_arith)
            requires
                next <= 0x1_0000,
        ;
        if next * next > n {
            break;
        }
        assert(next < 0x1_0000) by (nonlinear_arith)
            requires
                next * next <= n,
                n <= u32::MAX,
        ;
        r = next;
    }
    r
}

/// Cube root of `n`, rounded to the nearest integer.
pub fn rounded_cbrt(n: u64) -> (r: u64)
    requires
        n <= u32::MAX,
    ensures
        is_rounded_cbrt(n as int, r as int),
        r <= 0x1000,
{
    let mut r: u64 = 0;
    assert((2 * r - 1) * (2 * r - 1) * (2 * r - 1) <= 8 * n) by (nonlinear_arith)
        requires
            r == 0,
    ;
    loop
        invariant
            (2 * r - 1) * (2 * r - 1) * (2 * r - 1) <= 8 * n,
            n <= u32::MAX,
            r < 0x800,
        ensures
            is_rounded_cbrt(n as int, r as int),
            r <= 0x1000,
        decreases 0x800 - r,
    {
        let odd = 2 * r + 1;
        assert(odd * odd <= 0x1000 * 0x1000 && odd * odd * odd <= 0x1000 * 0x1000 * 0x1000)
            by (nonlinear_arith)
            requires
                odd <= 0x1000,
        ;
        if odd * odd * odd > 8 * n {
            break;
        }
        assert(r + 1 < 0x800) by (nonlinear_arith)
            requires
                odd == 2 * r + 1,
                odd * odd * odd <= 8 * n,
                n <= u32::MAX,
        ;
        r = r + 1;
    }
    r
}

/// Lateral offsets per station of the Bezier planner: two independently
/// sampled lateral axes keep the product of their counts within the scaled
/// path budget, and the count is odd so the centerline is always one of them.
pub fn lateral_count(budget: ComputeBudget) -> (count: usize)
    ensures
        exists|c: int|
            is_floor_sqrt(scaled_work(budget.percent(), NOMINAL_PATHS as int, 1), c)
                && count == odd_floor(c),
        count % 2 == 1,
        count * count <= scaled_work(budget.percent(), NOMINAL_PATHS as int, 1),
        (count + 2) * (count + 2) > scaled_work(budget.percent(), NOMINAL_PATHS as int, 1),
{
    // The budget's range bounds the product that `scale` computes.
    let percent = budget.as_percent();
    let paths = budget.scale(NOMINAL_PATHS, 1);
    assert(paths <= NOMINAL_PATHS * percent);
    let c = floor_sqrt(paths as u64) as usize;
    let count = if c >= 1 {
        (c - 1) / 2 * 2 + 1
    } else {
        1
    };
    assert(is_floor_sqrt(scaled_work(budget.percent(), NOMINAL_PATHS as int, 1), c as int)
        && count == odd_floor(c as int));
    proof {
        lemma_lateral_count_odd_within_budget(paths as int, c as int);
    }
    count
}

/// Samples per axis of the Frenet polynomial grid: three variable-density
/// axes share the scaled budget, so each gets its cube root.
pub fn grid_samples(budget: ComputeBudget) -> (samples: usize)
    ensures
        is_rounded_cbrt(
            scaled_work(budget.percent(), (NOMINAL_GRID_SAMPLES * NOMINAL_GRID_SAMPLES
                * NOMINAL_GRID_SAMPLES) as int, 8),
            samples as int,
        ),
        samples >= 2,
{
    // The budget's range bounds the product that `scale` computes.
    let percent = budget.as_percent();
    let total = budget.scale(NOMINAL_GRID_SAMPLES * NOMINAL_GRID_SAMPLES * NOMINAL_GRID_SAMPLES, 8);
    assert(total <= 1331 * percent);
    let samples = rounded_cbrt(total as u64);
    proof {
        lemma_grid_samples_at_least_two(total as int, samples as int);
    }
    samples as usize
}

/// The Bezier lateral count is the largest odd number whose square fits the
/// path budget: odd, so the centerline offset is always among the candidates,
/// with the two lateral axes together within the budget.
pub proof fn lemma_lateral_count_odd_within_budget(paths: int, c: int)
    requires
        paths >= 1,
        is_floor_sqrt(paths, c),
    ensures
        odd_floor(c) >= 1,
        odd_floor(c) % 2 == 1,
        odd_floor(c) * odd_floor(c) <= paths,
        (odd_floor(c) + 2) * (odd_floor(c) + 2) > paths,
{
    let k = odd_floor(c);
    assert(k + 2 >= c + 1);
    assert((k + 2) * (k + 2) >= (c + 1) * (c + 1)) by (nonlinear_arith)
        requires
            k + 2 >= c + 1,
            c >= 0,
    ;
    assert(c >= 1) by (nonlinear_arith)
        requires
            paths >= 1,
            paths < (c + 1) * (c + 1),
            c >= 0,
    ;
    assert(1 <= k <= c);
    assert(k * k <= c * c) by (nonlinear_arith)
        requires
            1 <= k <= c,
    ;
}

/// Every scaled grid budget is at least the minimum of 8 samples, so every
/// axis of the polynomial grid has at least two samples (its end points).
pub proof fn lemma_grid_samples_at_least_two(n: int, r: int)
    requires
        n >= 8,
        is_rounded_cbrt(n, r),
    ensures
        r >= 2,
{
    if r <= 1 {
        assert((2 * r + 1) * (2 * r + 1) * (2 * r + 1) <= 27) by (nonlinear_arith)
            requires
                0 <= r <= 1,
        ;
    }
}

/// The nominal budget leaves a workload as calibrated, apart from the floor.
pub proof fn lemma_nominal_scale(at_100_ms: int, minimum: int)
    requires
        at_100_ms >= 0,
    ensures
        scaled_work(100, at_100_ms, minimum) == if at_100_ms >= minimum {
            at_100_ms
        } else {
            minimum
        },
{
    assert(at_100_ms * 100 / 100 == at_100_ms) by (nonlinear_arith);
}

/// A larger budget never scales a workload down.
pub proof fn lemma_scaled_work_monotone(p1: int, p2: int, at_100_ms: int, minimum: int)
    requires
        0 <= p1 <= p2,
        at_100_ms >= 0,
    ensures
        scaled_work(p1, at_100_ms, minimum) <= scaled_work(p2, at_100_ms, minimum),
{
    assert(at_100_ms * p1 <= at_100_ms * p2) by (nonlinear_arith)
        requires
            0 <= p1 <= p2,
            at_100_ms >= 0,
    ;
    assert(at_100_ms * p1 / 100 <= at_100_ms * p2 / 100) by (nonlinear_arith)
        requires
            0 <= at_100_ms * p1 <= at_100_ms * p2,
    ;
}

/// The integer square root grows with its argument.
pub proof fn lemma_floor_sqrt_monotone(n1: int, n2: int, c1: int, c2: int)
    requires
        n1 <= n2,
        is_floor_sqrt(n1, c1),
        is_floor_sqrt(n2, c2),
    ensures
        c1 <= c2,
{
    if c1 > c2 {
        assert((c2 + 1) * (c2 + 1) <= c1 * c1) by (nonlinear_arith)
            requires
                c2 + 1 <= c1,
                c2 >= 0,
        ;
    }
}

/// The rounded cube root grows with its argument.
pub proof fn lemma_rounded_cbrt_monotone(n1: int, n2: int, r1: int, r2: int)
    requires
        n1 <= n2,
        is_rounded_cbrt(n1, r1),
        is_rounded_cbrt(n2, r2),
    ensures
        r1 <= r2,
{
    if r1 > r2 {
        assert((2 * r2 + 1) * (2 * r2 + 1) * (2 * r2 + 1) <= (2 * r1 - 1) * (2 * r1 - 1) * (2 * r1
            - 1)) by (nonlinear_arith)
            requires
                r2 + 1 <= r1,
                r2 >= 0,
        ;
    }
}

/// A larger budget never gives fewer lateral offsets to the Bezier planner.
pub proof fn lemma_lateral_count_monotone(p1: int, p2: int, c1: int, c2: int)
    requires
        0 <= p1 <= p2,
        is_floor_sqrt(scaled_work(p1, NOMINAL_PATHS as int, 1), c1),
        is_floor_sqrt(scaled_work(p2, NOMINAL_PATHS as int, 1), c2),
    ensures
        odd_floor(c1) <= odd_floor(c2),
{
    lemma_scaled_work_monotone(p1, p2, NOMINAL_PATHS as int, 1);
    lemma_floor_sqrt_monotone(
        scaled_work(p1, NOMINAL_PATHS as int, 1),
        scaled_work(p2, NOMINAL_PATHS as int, 1),
        c1,
        c2,
    );
}

/// A larger budget never gives fewer samples per axis of the polynomial grid.
pub proof fn lemma_grid_samples_monotone(p1: int, p2: int, r1: int, r2: int)
    requires
        0 <= p1 <= p2,
        is_rounded_cbrt(scaled_work(p1, 1331, 8), r1),
        is_rounded_cbrt(scaled_work(p2, 1331, 8), r2),
    ensures
        r1 <= r2,
{
    lemma_scaled_work_monotone(p1, p2, 1331, 8);
    lemma_rounded_cbrt_monotone(scaled_work(p1, 1331, 8), scaled_work(p2, 1331, 8), r1, r2);
}

} // verus!
