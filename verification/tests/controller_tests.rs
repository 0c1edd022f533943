use taproot_vanity::controller::ControlEvent;
use taproot_vanity::controller::Coordinator;
use taproot_vanity::controller::SearchMode;

#[test]
fn single_shot_records_exactly_one_result() {
    let mut c = Coordinator::new(SearchMode::SingleShot);
    assert!(!c.stop_requested);

    // The first result is recorded and raises the stop signal.
    assert!(c.on_event(ControlEvent::ResultReceived));
    assert!(c.stop_requested);
    assert_eq!(c.recorded, 1);

    // Redundant in-flight results after the stop are not recorded.
    assert!(!c.on_event(ControlEvent::ResultReceived));
    assert!(!c.on_event(ControlEvent::ResultReceived));
    assert_eq!(c.recorded, 1);
}

#[test]
fn continuous_records_every_result_and_keeps_running() {
    let mut c = Coordinator::new(SearchMode::Continuous);
    let n = 5;
    for _ in 0..n {
        assert!(c.on_event(ControlEvent::ResultReceived));
        assert!(!c.stop_requested);
    }
    assert_eq!(c.recorded, n);

    // Only an external cancellation stops a continuous search.
    assert!(!c.on_event(ControlEvent::CancelRequested));
    assert!(c.stop_requested);
    assert_eq!(c.recorded, n);
}

#[test]
fn cancellation_records_nothing_in_single_shot_too() {
    let mut c = Coordinator::new(SearchMode::SingleShot);
    assert!(!c.on_event(ControlEvent::CancelRequested));
    assert!(c.stop_requested);
    assert_eq!(c.recorded, 0);
    // After a cancellation, a late result is not recorded either.
    assert!(!c.on_event(ControlEvent::ResultReceived));
    assert_eq!(c.recorded, 0);
}
