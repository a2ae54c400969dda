use musicpi_display::pipeline::{
    ControlStatus, MILLISECONDS_PER_FRAME, PaceDecision, elapsed_to_ms, pace, should_abort,
    update_snapshot,
};

#[test]
fn fast_tick_sleeps_the_exact_remainder() {
    assert_eq!(PaceDecision::Sleep(11), pace(5, MILLISECONDS_PER_FRAME));
}

#[test]
fn slow_tick_reports_an_overrun() {
    assert_eq!(PaceDecision::Overrun, pace(16, MILLISECONDS_PER_FRAME));
    assert_eq!(PaceDecision::Overrun, pace(40, MILLISECONDS_PER_FRAME));
}

#[test]
fn abort_signal_stops_a_loop() {
    assert!(should_abort(&Some(ControlStatus::Abort)));
    assert!(!should_abort(&None));
}

#[test]
fn snapshot_cache_keeps_the_last_value() {
    let mut cached = 41u32;
    update_snapshot(&mut cached, None);
    assert_eq!(41, cached);
    update_snapshot(&mut cached, Some(42));
    assert_eq!(42, cached);
}

#[test]
fn millisecond_stamp_shifts_two_seconds() {
    assert_eq!(2000, elapsed_to_ms(0, 0));
    assert_eq!(2000, elapsed_to_ms(0, 999_999));
    assert_eq!(3501, elapsed_to_ms(1, 501_000_000));
}
