//! The resolution decision engine: a pure rule that decides, from the
//! current song's start time, its duration and a configured lead threshold,
//! whether the round's resolution should be triggered now.

use vstd::prelude::*;

verus! {

/// True exactly when the current time has passed the point at which the
/// remaining playback time of the current song drops below `threshold_ms`.
///
/// All quantities are milliseconds. The comparison is over unbounded
/// integers, so a threshold larger than the whole playback window does not
/// wrap around: it simply makes resolution due from the start.
pub open spec fn resolve_due(
    song_start_ms: u64,
    song_duration_ms: u64,
    threshold_ms: u64,
    now_ms: u64,
) -> bool {
    now_ms > song_start_ms + song_duration_ms - threshold_ms
}

/// Decides whether the round should be resolved now: true iff
/// `now_ms > song_start_ms + song_duration_ms - threshold_ms`, with exact
/// integer semantics (equality at the boundary returns false).
pub fn should_resolve(
    song_start_ms: u64,
    song_duration_ms: u64,
    threshold_ms: u64,
    now_ms: u64,
) -> (due: bool)
    ensures
        due == resolve_due(song_start_ms, song_duration_ms, threshold_ms, now_ms),
{
    let window_end: u128 = song_start_ms as u128 + song_duration_ms as u128;
    let threshold: u128 = threshold_ms as u128;
    if threshold > window_end {
        true
    } else {
        (now_ms as u128) > window_end - threshold
    }
}

/// A threshold exceeding the whole playback window means resolution is due
/// immediately, for every clock value: the subtraction never wraps below
/// zero, because the rule is stated over unbounded integers.
pub proof fn lemma_due_when_threshold_exceeds_window(
    song_start_ms: u64,
    song_duration_ms: u64,
    threshold_ms: u64,
    now_ms: u64,
)
    requires
        threshold_ms > song_start_ms + song_duration_ms,
    ensures
        resolve_due(song_start_ms, song_duration_ms, threshold_ms, now_ms),
{
}

/// Relies on `std::time::SystemTime::now` and
/// `SystemTime::duration_since(UNIX_EPOCH)`: wall-clock milliseconds since
/// the Unix epoch, or 0 if the clock reports a time before the epoch.
/// Nothing can be stated about the value read.
#[verifier::external_body]
fn read_wall_clock_ms() -> u64 {
    match std::time::SystemTime::now().duration_since(std::time::UNIX_EPOCH) {
        Ok(d) => d.as_millis() as u64,
        Err(_) => 0,
    }
}

/// The wall clock, in milliseconds since the Unix epoch. The clock is an
/// outside source: no contract can pin its value.
pub fn current_unixtime_milliseconds() -> u64 {
    read_wall_clock_ms()
}

/// Reads the wall clock and applies the pure decision rule. The exact
/// contract lives on `should_resolve`; whatever the clock returned, the
/// result is the rule applied to some clock value, and a threshold that
/// exceeds the whole playback window is due at every clock value.
pub fn should_we_trigger_vote_resolution(
    song_start_time: u64,
    song_duration: u64,
    resolve_votes_threshold_ms: u64,
) -> (due: bool)
    ensures
        exists|now_ms: u64|
            due == resolve_due(song_start_time, song_duration, resolve_votes_threshold_ms, now_ms),
        resolve_votes_threshold_ms > song_start_time + song_duration ==> due,
{
    let now_ms = current_unixtime_milliseconds();
    let due = should_resolve(song_start_time, song_duration, resolve_votes_threshold_ms, now_ms);
    proof {
        assert(due == resolve_due(
            song_start_time,
            song_duration,
            resolve_votes_threshold_ms,
            now_ms,
        ));
    }
    due
}

} // verus!
