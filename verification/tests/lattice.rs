use nanoplan::lattice::{
    decode_node, neighborhood, node_id, D_BREAKPOINTS, GRID_NODES, MAX_EVALUATED_SEGMENTS,
    PLANNING_TICKS, S_BREAKPOINTS, TICKS_PER_EDGE, TIME_LAYERS, V_BREAKPOINTS,
};
use nanoplan::search_tree::{parent_chain, repeat_last_controls, NO_PARENT};

#[test]
fn segment_budget_is_the_declared_realtime_bound() {
    assert_eq!(MAX_EVALUATED_SEGMENTS, 1_000);
}

#[test]
fn lattice_dimensions_are_consistent() {
    assert_eq!(PLANNING_TICKS % TICKS_PER_EDGE, 0);
    assert_eq!(TIME_LAYERS, PLANNING_TICKS / TICKS_PER_EDGE);
    assert_eq!(GRID_NODES, TIME_LAYERS * S_BREAKPOINTS * D_BREAKPOINTS * V_BREAKPOINTS);
}

#[test]
fn node_ids_round_trip() {
    assert_eq!(node_id(0, 0, 0, 0), 1);
    assert_eq!(node_id(0, 0, 0, 1), 2);
    assert_eq!(node_id(0, 0, 1, 0), 6);
    assert_eq!(node_id(0, 1, 0, 0), 41);
    assert_eq!(node_id(1, 0, 0, 0), 201);
    assert_eq!(node_id(9, 4, 7, 4), GRID_NODES);
    assert_eq!(decode_node(1), (0, 0, 0, 0));
    assert_eq!(decode_node(GRID_NODES), (9, 4, 7, 4));
    for layer in 0..TIME_LAYERS {
        for si in 0..S_BREAKPOINTS {
            for di in 0..D_BREAKPOINTS {
                for vi in 0..V_BREAKPOINTS {
                    let id = node_id(layer, si, di, vi);
                    assert!((1..=GRID_NODES).contains(&id));
                    assert_eq!(decode_node(id), (layer, si, di, vi));
                }
            }
        }
    }
    assert_eq!(decode_node(GRID_NODES + 1).0, TIME_LAYERS);
}

#[test]
fn neighborhoods_are_clipped_to_the_breakpoints() {
    assert_eq!(neighborhood(0, 5), vec![0, 1]);
    assert_eq!(neighborhood(2, 5), vec![1, 2, 3]);
    assert_eq!(neighborhood(4, 5), vec![3, 4]);
    assert_eq!(neighborhood(0, 1), vec![0]);
    assert_eq!(neighborhood(9, 5), Vec::<usize>::new());
    assert_eq!(neighborhood(5, 5), vec![4]);
}

#[test]
fn parent_chain_runs_from_root_to_leaf() {
    // 0 -> 3 -> 1 -> 4
    let parents = vec![NO_PARENT, 3, NO_PARENT, 0, 1];
    assert_eq!(parent_chain(4, 0, &parents), vec![3, 1, 4]);
    assert_eq!(parent_chain(3, 0, &parents), vec![3]);
    assert_eq!(parent_chain(0, 0, &parents), Vec::<usize>::new());
    assert_eq!(parent_chain(4, 3, &parents), vec![1, 4]);
}

#[test]
fn controls_are_padded_with_the_last_one() {
    let controls = [(1.0, 0.1), (2.0, 0.2)];
    assert_eq!(repeat_last_controls(&controls, 4), vec![(1.0, 0.1), (2.0, 0.2), (2.0, 0.2), (2.0, 0.2)]);
    assert_eq!(repeat_last_controls(&controls, 1), vec![(1.0, 0.1)]);
    assert_eq!(repeat_last_controls(&controls, 0), vec![]);
    let none: [u8; 0] = [];
    assert_eq!(repeat_last_controls(&none, 0), Vec::<u8>::new());
}
