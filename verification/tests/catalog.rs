use nanoplan::planners::{planner_ids, planner_kind, planner_spec_row, PlannerKind, PLANNER_COUNT};

#[test]
fn specs_align_with_kinds() {
    assert_eq!(PlannerKind::all().len(), PLANNER_COUNT);
    for kind in PlannerKind::all() {
        assert_eq!(kind.planner_spec().kind, kind);
        assert_eq!(planner_spec_row(kind.index()).kind, kind);
    }
}

#[test]
fn planner_names_and_capabilities() {
    assert_eq!(PlannerKind::Straight.name(), "straight (strawman)");
    assert_eq!(PlannerKind::BezierToppra.name(), "bezier + TOPP-RA");
    assert_eq!(PlannerKind::PredictiveSampling.name(), "predictive sampling (judo)");
    assert_eq!(PlannerKind::Treetop.name(), "treetop (RRT+iLQR)");
    assert!(!PlannerKind::Straight.has_diagnostics());
    assert!(!PlannerKind::BezierToppra.has_diagnostics());
    assert!(PlannerKind::Lattice.has_diagnostics());
    assert!(PlannerKind::Mppi.has_diagnostics());
}

#[test]
fn planner_ids_are_listed_in_catalog_order() {
    assert_eq!(
        planner_ids(),
        vec![
            "straight",
            "basic",
            "bezier-toppra",
            "lattice",
            "pi2-ddp",
            "rrt-star",
            "predictive-sampling",
            "cem",
            "mppi",
            "rrt",
            "ilqr",
            "treetop"
        ]
    );
}

#[test]
fn every_planner_id_selects_its_planner() {
    for (id, kind) in planner_ids().into_iter().zip(PlannerKind::all()) {
        assert_eq!(planner_kind(id), Some(kind), "{id}");
    }
}

#[test]
fn planner_names_are_normalized_and_aliased() {
    assert_eq!(planner_kind("Bezier_TOPPRA"), Some(PlannerKind::BezierToppra));
    assert_eq!(planner_kind("bezier--toppra"), None);
    assert_eq!(planner_kind("Bezier_Toppra"), Some(PlannerKind::BezierToppra));
    assert_eq!(planner_kind("PREDICTIVE SAMPLING"), Some(PlannerKind::PredictiveSampling));
    assert_eq!(planner_kind("bezier"), Some(PlannerKind::BezierToppra));
    assert_eq!(planner_kind("Frenet Lattice"), Some(PlannerKind::Lattice));
    assert_eq!(planner_kind("pi2ddp"), Some(PlannerKind::Pi2Ddp));
    assert_eq!(planner_kind("RRT*"), Some(PlannerKind::RrtStar));
    assert_eq!(planner_kind("ps"), Some(PlannerKind::PredictiveSampling));
    assert_eq!(planner_kind("rrt_star"), Some(PlannerKind::RrtStar));
    assert_eq!(planner_kind("unknown"), None);
    assert_eq!(planner_kind(""), None);
}
