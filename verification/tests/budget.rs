use nanoplan::candidate_counts::{floor_sqrt, grid_samples, lateral_count, rounded_cbrt};
use nanoplan::compute_budget::{
    ComputeBudget, COMPUTE_BUDGET_BREAKPOINTS, MAX_COMPUTE_BUDGET_PERCENT, MIN_COMPUTE_BUDGET_PERCENT,
    NOMINAL_COMPUTE_BUDGET_PERCENT,
};

#[test]
fn breakpoints_are_strictly_increasing() {
    assert!(COMPUTE_BUDGET_BREAKPOINTS.windows(2).all(|pair| pair[0] < pair[1]));
}

#[test]
fn percentage_scales_calibrated_work_with_a_floor() {
    assert_eq!(ComputeBudget::nominal().scale(1_000, 100), 1_000);
    assert_eq!(ComputeBudget::from_percent(25).scale(1_000, 100), 250);
    assert_eq!(ComputeBudget::from_percent(1).scale(32, 8), 8);
}

#[test]
fn breakpoints_span_the_supported_range() {
    assert_eq!(COMPUTE_BUDGET_BREAKPOINTS[0], MIN_COMPUTE_BUDGET_PERCENT);
    assert_eq!(COMPUTE_BUDGET_BREAKPOINTS[6], MAX_COMPUTE_BUDGET_PERCENT);
    assert!(COMPUTE_BUDGET_BREAKPOINTS.contains(&NOMINAL_COMPUTE_BUDGET_PERCENT));
}

#[test]
fn from_percent_clamps_to_the_supported_range() {
    assert_eq!(ComputeBudget::from_percent(-3).as_percent(), 5);
    assert_eq!(ComputeBudget::from_percent(0).as_percent(), 5);
    assert_eq!(ComputeBudget::from_percent(5).as_percent(), 5);
    assert_eq!(ComputeBudget::from_percent(42).as_percent(), 42);
    assert_eq!(ComputeBudget::from_percent(500).as_percent(), 500);
    assert_eq!(ComputeBudget::from_percent(501).as_percent(), 500);
    assert_eq!(ComputeBudget::from_percent(i64::MAX).as_percent(), 500);
    assert_eq!(ComputeBudget::nominal().as_percent(), 100);
    assert_eq!(ComputeBudget::nominal(), ComputeBudget::from_percent(100));
}

#[test]
fn scale_rounds_down() {
    assert_eq!(ComputeBudget::from_percent(50).scale(9, 1), 4);
    assert_eq!(ComputeBudget::from_percent(500).scale(1331, 8), 6655);
    assert_eq!(ComputeBudget::from_percent(10).scale(0, 0), 0);
}

#[test]
fn integer_roots() {
    assert_eq!(floor_sqrt(0), 0);
    assert_eq!(floor_sqrt(1), 1);
    assert_eq!(floor_sqrt(8), 2);
    assert_eq!(floor_sqrt(9), 3);
    assert_eq!(floor_sqrt(45), 6);
    assert_eq!(floor_sqrt(u32::MAX as u64), 65535);
    assert_eq!(rounded_cbrt(0), 0);
    assert_eq!(rounded_cbrt(1), 1);
    assert_eq!(rounded_cbrt(3), 1);
    assert_eq!(rounded_cbrt(4), 2);
    assert_eq!(rounded_cbrt(1331), 11);
    assert_eq!(rounded_cbrt(1520), 11);
    assert_eq!(rounded_cbrt(1521), 12);
    for n in [8u64, 66, 133, 665, 1331, 2662, 6655, 4_000_000] {
        let root = rounded_cbrt(n);
        assert_eq!(root, (n as f64).cbrt().round() as u64, "cube root of {n}");
    }
    for n in [2u64, 4, 9, 10, 24, 25, 4500] {
        assert_eq!(floor_sqrt(n), (n as f64).sqrt() as u64, "square root of {n}");
    }
}

#[test]
fn budget_scales_lateral_count_and_keeps_it_odd() {
    // 9 paths at the nominal budget: three offsets per station.
    assert_eq!(lateral_count(ComputeBudget::nominal()), 3);
    assert_eq!(lateral_count(ComputeBudget::from_percent(5)), 1);
    assert_eq!(lateral_count(ComputeBudget::from_percent(50)), 1);
    assert_eq!(lateral_count(ComputeBudget::from_percent(200)), 3);
    assert_eq!(lateral_count(ComputeBudget::from_percent(300)), 5);
    assert_eq!(lateral_count(ComputeBudget::from_percent(500)), 5);
    for percent in [5, 10, 20, 50, 100, 200, 500] {
        assert_eq!(lateral_count(ComputeBudget::from_percent(percent)) % 2, 1);
    }
}

#[test]
fn grid_samples_take_the_cube_root_of_the_budget() {
    assert_eq!(grid_samples(ComputeBudget::nominal()), 11);
    assert_eq!(grid_samples(ComputeBudget::from_percent(5)), 4);
    assert_eq!(grid_samples(ComputeBudget::from_percent(10)), 5);
    assert_eq!(grid_samples(ComputeBudget::from_percent(500)), 19);
    for percent in [5, 10, 20, 50, 100, 200, 500] {
        let budget = ComputeBudget::from_percent(percent);
        let expected = (budget.scale(1331, 8) as f64).cbrt().round() as usize;
        assert_eq!(grid_samples(budget), expected);
    }
}

#[test]
fn lateral_candidates_grow_with_the_budget_and_stay_within_it() {
    let mut previous = 0;
    for percent in COMPUTE_BUDGET_BREAKPOINTS {
        let budget = ComputeBudget::from_percent(percent as i64);
        let count = lateral_count(budget);
        assert!(count * count >= previous && count * count <= budget.scale(9, 1));
        previous = count * count;
    }
    assert!(previous > 9);
}

#[test]
fn candidate_count_scales_approximately_with_budget() {
    let nominal = 11usize.pow(3) * 3;
    let mut previous = 0;
    for percent in COMPUTE_BUDGET_BREAKPOINTS {
        let budget = ComputeBudget::from_percent(percent as i64);
        let count = grid_samples(budget).pow(3) * 3;
        let expected = nominal as f64 * percent as f64 / 100.0;
        assert!((count as f64 / expected - 1.0).abs() < 0.25, "{percent}%: {count} vs {expected}");
        assert!(count > previous);
        previous = count;
    }
    assert_eq!(grid_samples(ComputeBudget::nominal()), 11);
}
