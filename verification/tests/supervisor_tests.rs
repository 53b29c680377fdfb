use laser_ingest::supervisor::{ConnectionError, Supervisor};

#[test]
fn stop_with_no_worker_is_a_no_op() {
    let mut s = Supervisor::new();
    assert!(!s.live);
    s.stop();
    assert!(!s.live);
    assert_eq!(s.generation, 0);
    s.stop();
    assert!(!s.live);
    assert_eq!(s.generation, 0);
}

#[test]
fn start_opens_one_live_worker() {
    let mut s = Supervisor::new();
    let gen = s.start(true).unwrap();
    assert!(s.live);
    assert_eq!(gen, 1);
    assert!(s.is_current(gen));
}

#[test]
fn restart_leaves_exactly_one_current_worker() {
    let mut s = Supervisor::new();
    let first = s.start(true).unwrap();
    let second = s.start(true).unwrap();
    assert!(s.live);
    assert!(s.is_current(second));
    // the stale worker's generation is no longer current, so its
    // emissions are dropped
    assert!(!s.is_current(first));
    assert_ne!(first, second);
}

#[test]
fn failed_open_reports_error_and_leaves_no_worker() {
    let mut s = Supervisor::new();
    let first = s.start(true).unwrap();
    let r = s.start(false);
    assert_eq!(r, Err(ConnectionError {}));
    assert!(!s.live);
    assert!(!s.is_current(first));
}

#[test]
fn stop_after_start_retires_the_worker() {
    let mut s = Supervisor::new();
    let gen = s.start(true).unwrap();
    s.stop();
    assert!(!s.live);
    assert!(!s.is_current(gen));
    s.stop();
    assert!(!s.live);
}
