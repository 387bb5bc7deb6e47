use violet::overlay::{OverlayStack, OverlayState};

#[test]
fn overlay_ids_are_fresh() {
    let mut stack = OverlayStack::new();
    let a = stack.open();
    let b = stack.open();
    assert_ne!(a, b);
    assert_eq!(stack.state().len(), 2);
    assert!(stack.state().is_open_id(a));
    assert!(stack.state().is_open_id(b));
    assert!(!stack.state().is_open_id(12345));
    assert!(!stack.state().is_open_id((1u64 << 32) | 5));
}

#[test]
fn mounted_overlays_are_found_again() {
    let mut stack = OverlayStack::new();
    let a = stack.open();
    let b = stack.open();
    assert_eq!(stack.entity_of(a), None);
    stack.record(a, 100);
    assert_eq!(stack.entity_of(a), Some(100));
    assert_eq!(stack.entity_of(b), None);
    assert_eq!(stack.replace_target(a, &vec![5, 100, 7]), Some((1, 100)));
    assert_eq!(stack.replace_target(b, &vec![5, 100, 7]), None);
    stack.record(a, 200);
    assert_eq!(stack.entity_of(a), Some(200));
}

#[test]
fn overlays_open_on_top_or_at_the_bottom() {
    assert_eq!(OverlayStack::open_index(true, 3), 3);
    assert_eq!(OverlayStack::open_index(false, 3), 0);
}

#[test]
fn a_stack_can_share_an_existing_state() {
    let mut state = OverlayState::new();
    let a = state.open();
    let stack = OverlayStack::from_state(state);
    assert!(stack.state().is_open_id(a));
    assert_eq!(stack.entity_of(a), None);
}
