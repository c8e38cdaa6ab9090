use jukebox_driver::decision::current_unixtime_milliseconds;
use jukebox_driver::decision::should_resolve;
use jukebox_driver::decision::should_we_trigger_vote_resolution;

#[test]
fn worked_example_is_due() {
    // threshold 20000 ms, start 1000 ms, duration 180000 ms, now 161500 ms:
    // 161500 > 1000 + 180000 - 20000 = 161000, so resolution is due.
    assert!(should_resolve(1000, 180000, 20000, 161500));
}

#[test]
fn boundary_equality_is_not_due() {
    // The comparison is strict: equality returns false.
    assert!(!should_resolve(1000, 180000, 20000, 161000));
    assert!(should_resolve(1000, 180000, 20000, 161001));
}

#[test]
fn strictly_before_threshold_is_not_due() {
    assert!(!should_resolve(1000, 180000, 20000, 100000));
    assert!(!should_resolve(0, 180000, 20000, 0));
}

#[test]
fn large_threshold_does_not_wrap() {
    // threshold exceeds the whole playback window: due immediately, even at
    // clock value zero, with no unsigned wrap-around.
    assert!(should_resolve(5, 10, 1000, 0));
    assert!(should_resolve(0, 0, 1, 0));
}

#[test]
fn threshold_equal_to_window_is_due_after_epoch() {
    // start + duration == threshold: due for every now > 0, not at 0.
    assert!(!should_resolve(100, 900, 1000, 0));
    assert!(should_resolve(100, 900, 1000, 1));
}

#[test]
fn huge_values_do_not_overflow() {
    // window end = 2 * u64::MAX, far beyond any clock value.
    assert!(!should_resolve(u64::MAX, u64::MAX, 0, u64::MAX));
    // bound = u64::MAX + u64::MAX - u64::MAX: equality again, not due.
    assert!(!should_resolve(u64::MAX, u64::MAX, u64::MAX, u64::MAX));
    // a maximal threshold on an instant song: due even at clock zero.
    assert!(should_resolve(0, 0, u64::MAX, 0));
}

#[test]
fn clock_is_past_twenty_twenty() {
    // Milliseconds since the epoch; far past 2020 on any sane clock.
    assert!(current_unixtime_milliseconds() > 1_600_000_000_000);
}

#[test]
fn trigger_wrapper_follows_the_rule() {
    // A song that ended long ago is always due.
    assert!(should_we_trigger_vote_resolution(0, 1, 0));
    // A song starting far in the future is never due.
    assert!(!should_we_trigger_vote_resolution(u64::MAX - 2, 1, 0));
}
