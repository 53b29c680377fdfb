use laser_ingest::game::GameStateEngine;

fn engine(thresholds: Vec<u16>) -> GameStateEngine {
    GameStateEngine::new(1023, thresholds)
}

#[test]
fn threshold_scenario_trips_low_reading_only() {
    // threshold 50%: raw 400 normalises to about 39.1, below 50, so it
    // trips; raw 600 normalises to about 58.6, not below 50.
    let mut g = engine(vec![50]);
    g.start_round();
    assert_eq!(g.evaluate(&vec![600]), Vec::<usize>::new());
    assert_eq!(g.evaluate(&vec![400]), vec![0]);
}

#[test]
fn inactive_round_reports_nothing_and_never_trips() {
    let mut g = engine(vec![50, 50]);
    for _ in 0..3 {
        assert_eq!(g.evaluate(&vec![0, 0]), Vec::<usize>::new());
        assert_eq!(g.tripped, vec![false, false]);
        assert!(!g.round_active);
    }
}

#[test]
fn sensor_reports_at_most_once_per_round() {
    let mut g = engine(vec![50]);
    g.start_round();
    assert_eq!(g.evaluate(&vec![400]), vec![0]);
    assert_eq!(g.evaluate(&vec![400]), Vec::<usize>::new());
    assert_eq!(g.evaluate(&vec![0]), Vec::<usize>::new());
}

#[test]
fn reactivate_lets_a_sensor_report_again() {
    let mut g = engine(vec![50]);
    g.start_round();
    assert_eq!(g.evaluate(&vec![400]), vec![0]);
    g.reactivate(0);
    assert_eq!(g.evaluate(&vec![400]), vec![0]);
}

#[test]
fn reactivate_out_of_range_is_a_no_op() {
    let mut g = engine(vec![50]);
    g.start_round();
    assert_eq!(g.evaluate(&vec![400]), vec![0]);
    g.reactivate(7);
    assert_eq!(g.tripped, vec![true]);
    assert!(g.round_active);
}

#[test]
fn start_round_clears_trips_stop_round_keeps_them() {
    let mut g = engine(vec![50, 50]);
    g.start_round();
    assert_eq!(g.evaluate(&vec![400, 400]), vec![0, 1]);
    g.stop_round();
    assert!(!g.round_active);
    assert_eq!(g.tripped, vec![true, true]);
    assert_eq!(g.evaluate(&vec![400, 400]), Vec::<usize>::new());
    g.start_round();
    assert_eq!(g.tripped, vec![false, false]);
    assert_eq!(g.evaluate(&vec![400, 400]), vec![0, 1]);
}

#[test]
fn readings_without_thresholds_are_skipped() {
    let mut g = engine(vec![50]);
    g.start_round();
    assert_eq!(g.evaluate(&vec![400, 0, 0]), vec![0]);
}

#[test]
fn thresholds_without_readings_are_skipped() {
    let mut g = engine(vec![50, 50, 50]);
    g.start_round();
    assert_eq!(g.evaluate(&vec![400]), vec![0]);
}

#[test]
fn trip_comparison_is_strict() {
    // with a full-scale reading of 100 the normalisation is the
    // identity: a reading equal to the threshold must not trip.
    let mut g = GameStateEngine::new(100, vec![50]);
    g.start_round();
    assert_eq!(g.evaluate(&vec![50]), Vec::<usize>::new());
    assert_eq!(g.evaluate(&vec![49]), vec![0]);
}

#[test]
fn update_thresholds_replaces_table_and_keeps_surviving_flags() {
    let mut g = engine(vec![50, 50]);
    g.start_round();
    assert_eq!(g.evaluate(&vec![400, 600]), vec![0]);
    g.update_thresholds(vec![70, 70, 70]);
    assert_eq!(g.thresholds, vec![70, 70, 70]);
    assert_eq!(g.tripped, vec![true, false, false]);
    // sensor 0 is still latched; 600 normalises to about 58.6, below
    // the new threshold of 70, so sensors 1 and 2 now trip.
    assert_eq!(g.evaluate(&vec![400, 600, 600]), vec![1, 2]);
}

#[test]
fn fresh_engine_is_idle() {
    let g = engine(vec![50, 60]);
    assert!(!g.round_active);
    assert_eq!(g.tripped, vec![false, false]);
    assert_eq!(g.thresholds, vec![50, 60]);
    assert_eq!(g.raw_ceiling, 1023);
}
