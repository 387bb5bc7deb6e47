use violet::indicators::{LayoutIndicators, LayoutUpdateEvent, INDICATOR_LIFETIME};

#[test]
fn indicators_fade_out_after_their_lifetime() {
    let mut ind = LayoutIndicators::new();
    ind.record(7, LayoutUpdateEvent::Explicit);
    assert_eq!(ind.lifetime_of(7, LayoutUpdateEvent::Explicit), Some(INDICATOR_LIFETIME));
    assert_eq!(ind.lifetime_of(7, LayoutUpdateEvent::LayoutUpdate), None);
    for _ in 0..INDICATOR_LIFETIME - 1 {
        ind.fade();
    }
    assert_eq!(ind.lifetime_of(7, LayoutUpdateEvent::Explicit), Some(1));
    ind.fade();
    assert_eq!(ind.lifetime_of(7, LayoutUpdateEvent::Explicit), None);
}

#[test]
fn recording_again_restarts_an_indicator() {
    let mut ind = LayoutIndicators::new();
    ind.record(1, LayoutUpdateEvent::SizeQueryUpdate);
    ind.fade();
    ind.fade();
    assert_eq!(ind.lifetime_of(1, LayoutUpdateEvent::SizeQueryUpdate), Some(28));
    ind.record(1, LayoutUpdateEvent::SizeQueryUpdate);
    assert_eq!(ind.lifetime_of(1, LayoutUpdateEvent::SizeQueryUpdate), Some(30));
}

#[test]
fn indicators_are_listed_by_widget() {
    let mut ind = LayoutIndicators::new();
    ind.record(9, LayoutUpdateEvent::LayoutUpdate);
    ind.record(2, LayoutUpdateEvent::LayoutUpdate);
    ind.fade();
    ind.record(2, LayoutUpdateEvent::Explicit);
    assert_eq!(
        ind.indicators(),
        vec![
            (2, LayoutUpdateEvent::Explicit, 30),
            (2, LayoutUpdateEvent::LayoutUpdate, 29),
            (9, LayoutUpdateEvent::LayoutUpdate, 29),
        ]
    );
    ind.record(u64::MAX, LayoutUpdateEvent::LayoutUpdate);
    assert_eq!(ind.indicators().last(), Some(&(u64::MAX, LayoutUpdateEvent::LayoutUpdate, 30)));
}

#[test]
fn dirty_widgets_are_taken_once() {
    let mut d = violet::dirty::DirtyWidgets::new();
    d.mark_dirty(&vec![3, 1, 3]);
    d.mark_dirty(&vec![2]);
    let mut ids = d.take();
    ids.sort();
    assert_eq!(ids, vec![1, 2, 3]);
    assert!(d.take().is_empty());
}
