use nanoplan::engine::{PlannerEngineState, PollOutcome};
use nanoplan::warm_start::{shift_actions, take_warm};

#[test]
fn a_second_submission_is_refused_while_one_is_in_flight() {
    let mut engine = PlannerEngineState::new();
    assert!(!engine.is_pending());
    let mut sent = 0;
    assert!(engine.submit(|| {
        sent += 1;
        true
    }));
    assert!(engine.is_pending());
    assert!(!engine.submit(|| {
        sent += 1;
        true
    }));
    assert_eq!(sent, 1);
    assert!(!engine.poll(PollOutcome::Empty));
    assert!(engine.is_pending());
    assert!(engine.poll(PollOutcome::Delivered));
    assert!(!engine.is_pending());
    assert!(engine.submit(|| true));
    engine.wait();
    assert!(!engine.is_pending());
}

#[test]
fn a_refused_send_leaves_nothing_in_flight() {
    let mut engine = PlannerEngineState::new();
    assert!(!engine.submit(|| false));
    assert!(!engine.is_pending());
    assert!(engine.submit(|| true));
    assert!(!engine.poll(PollOutcome::Disconnected));
    assert!(!engine.is_pending());
}

#[test]
fn warm_start_is_consumed_and_kept_only_on_a_match() {
    let mut matching = Some(1);
    let mut diverged = Some(2);
    assert_eq!(take_warm(&mut matching, true), Some(1));
    assert_eq!(take_warm(&mut diverged, false), None);
    assert_eq!(diverged, None);
    assert_eq!(matching, None);
    let mut empty: Option<u8> = None;
    assert_eq!(take_warm(&mut empty, true), None);
}

#[test]
fn shifted_actions_hold_the_last_one() {
    assert_eq!(shift_actions(vec![1, 2, 3]), vec![2, 3, 3]);
    assert_eq!(shift_actions(vec![1, 2]), vec![2, 2]);
    assert_eq!(shift_actions(Vec::<u8>::new()), Vec::<u8>::new());
}
