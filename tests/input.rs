use ray_tracer::input::PressRecord;

#[test]
fn press_starts_a_span_once() {
    let mut r = PressRecord::default();
    assert!(!r.pressing);
    r.press();
    assert!(r.pressing);
    assert_eq!(r.start, r.end);
    let start = r.start;
    while std::time::Instant::now() <= start {}
    r.press();
    assert_eq!(r.start, start);
}

#[test]
fn release_ends_the_running_span() {
    let mut r = PressRecord::new();
    let idle = (r.start, r.end);
    r.release();
    assert_eq!((r.start, r.end), idle);
    r.press();
    let start = r.start;
    while std::time::Instant::now() <= start {}
    r.release();
    assert!(!r.pressing);
    assert_eq!(r.start, start);
    assert!(r.end > r.start);
}

#[test]
fn spans_take_the_given_instants() {
    let mut r = PressRecord::new();
    let t0 = std::time::Instant::now();
    let t1 = t0 + std::time::Duration::from_millis(5);
    let t2 = t0 + std::time::Duration::from_millis(9);
    r.press_at(t0);
    assert!(r.pressing);
    assert_eq!((r.start, r.end), (t0, t0));
    r.press_at(t1);
    assert_eq!((r.start, r.end), (t0, t0));
    r.release_at(t2);
    assert!(!r.pressing);
    assert_eq!((r.start, r.end), (t0, t2));
    r.release_at(t1);
    assert_eq!((r.start, r.end), (t0, t2));
}
