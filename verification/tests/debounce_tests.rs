use laser_ingest::debounce::Debouncer;
use laser_ingest::frame::ControlTag;

#[test]
fn first_occurrence_is_always_accepted() {
    let mut d = Debouncer::new(2000);
    assert!(d.accept(ControlTag::Buzzer, 0));
    let mut d = Debouncer::new(0);
    assert!(d.accept(ControlTag::Start, 12345));
}

#[test]
fn repeat_inside_window_is_suppressed() {
    let mut d = Debouncer::new(2000);
    assert!(d.accept(ControlTag::Buzzer, 1000));
    assert!(!d.accept(ControlTag::Buzzer, 1100));
    assert!(!d.accept(ControlTag::Buzzer, 2999));
}

#[test]
fn window_boundary_is_inclusive() {
    let mut d = Debouncer::new(2000);
    assert!(d.accept(ControlTag::Buzzer, 1000));
    assert!(d.accept(ControlTag::Buzzer, 3000));
}

#[test]
fn pair_accepted_iff_gap_reaches_window() {
    for (window, gap) in [(2000u64, 1999u64), (2000, 2000), (2000, 2500), (500, 0), (500, 499), (500, 500)] {
        let mut d = Debouncer::new(window);
        let first = d.accept(ControlTag::Buzzer, 7000);
        let second = d.accept(ControlTag::Buzzer, 7000 + gap);
        assert!(first);
        assert_eq!(second, gap >= window);
    }
}

#[test]
fn suppression_leaves_table_unchanged() {
    let mut d = Debouncer::new(2000);
    assert!(d.accept(ControlTag::Buzzer, 1000));
    assert!(!d.accept(ControlTag::Buzzer, 1100));
    // the rejected occurrence did not move the window: 3000 is still
    // measured from 1000
    assert!(d.accept(ControlTag::Buzzer, 3000));
}

#[test]
fn tags_are_debounced_independently() {
    let mut d = Debouncer::new(2000);
    assert!(d.accept(ControlTag::Buzzer, 1000));
    assert!(d.accept(ControlTag::Start, 1001));
    assert!(!d.accept(ControlTag::Buzzer, 1002));
    assert!(!d.accept(ControlTag::Start, 1003));
}
