use plant_sensor::shutdown::ShutdownSignal;

#[test]
fn new_signal_has_not_fired() {
    let s = ShutdownSignal::new();
    assert!(!s.is_fired());
}

#[test]
fn fire_before_wait_is_seen() {
    let mut s = ShutdownSignal::new();
    assert!(s.fire());
    assert!(s.is_fired());
}

#[test]
fn firing_twice_changes_nothing() {
    let mut s = ShutdownSignal::new();
    assert!(s.fire());
    assert!(!s.fire());
    assert!(s.is_fired());
}
