use jukebox_driver::cache::Cache;
use jukebox_driver::codec::decode_cache;
use jukebox_driver::codec::encode_cache;
use jukebox_driver::errors::ErrorKind;
use jukebox_driver::machine::Action;
use jukebox_driver::machine::Driver;
use jukebox_driver::machine::Event;
use jukebox_driver::machine::Phase;
use jukebox_driver::resource::JsonValue;

fn obj(fields: Vec<(&str, JsonValue)>) -> JsonValue {
    JsonValue::Obj(fields.into_iter().map(|(k, v)| (k.to_string(), v)).collect())
}

fn ledger_doc(track_id: &str, start_us: &str) -> JsonValue {
    obj(vec![(
        "inner",
        obj(vec![
            (
                "song_queue",
                JsonValue::Arr(vec![obj(vec![("track_id", JsonValue::Str(track_id.to_string()))])]),
            ),
            ("time_to_start_playing", JsonValue::Str(start_us.to_string())),
        ]),
    )])
}

fn empty_queue_doc() -> JsonValue {
    obj(vec![(
        "inner",
        obj(vec![
            ("song_queue", JsonValue::Arr(vec![])),
            ("time_to_start_playing", JsonValue::Str("1000000".to_string())),
        ]),
    )])
}

fn token_doc(token: &str) -> JsonValue {
    obj(vec![("access_token", JsonValue::Str(token.to_string()))])
}

fn duration_doc(ms: u64) -> JsonValue {
    obj(vec![("duration_ms", JsonValue::UInt(ms))])
}

#[test]
fn first_run_writes_fresh_cache_then_reloads_it() {
    // A durable store faked as an optional string.
    let mut store: Option<String> = None;

    // First invocation: no cache record exists.
    let (mut d, a0) = Driver::start(20000);
    assert_eq!(a0, Action::LoadCache);
    assert!(store.is_none());
    let a1 = d.step(Event::CacheAbsent);
    // The fresh empty cache is persisted before anything else proceeds.
    assert_eq!(a1, Action::SaveCache);
    store = Some(encode_cache(&d.cache));
    let a2 = d.step(Event::SaveOk);
    assert_eq!(a2, Action::RequestCredential);

    // Second invocation: the store now yields the empty cache, not absent.
    let (mut d2, _) = Driver::start(20000);
    let loaded = decode_cache(store.as_ref().unwrap()).expect("fresh cache must reload");
    assert!(loaded.spotify_access_token.is_none());
    assert_eq!(loaded.track_durations.len(), 0);
    let b1 = d2.step(Event::CacheRead(loaded));
    // No credential in the fresh cache: straight to a refresh, no probe.
    assert_eq!(b1, Action::RequestCredential);
}

#[test]
fn corrupt_cache_is_fatal() {
    let (mut d, _) = Driver::start(20000);
    let a = d.step(Event::CacheCorrupt);
    assert_eq!(a, Action::Stop);
    assert_eq!(d.phase, Phase::Failed);
    assert_eq!(d.error, Some(ErrorKind::CacheCorrupt));
    assert_eq!(d.error.unwrap().describe(), "cache file present but unreadable");
}

#[test]
fn stale_credential_causes_exactly_one_refresh_and_one_save() {
    let mut cache = Cache::new();
    cache.set_credential("stale-token".to_string());

    let (mut d, _) = Driver::start(20000);
    let mut refreshes = 0;
    let mut saves = 0;

    let a1 = d.step(Event::CacheRead(cache));
    assert_eq!(a1, Action::ProbeCredential);
    assert_eq!(d.token, Some("stale-token".to_string()));

    // The probe fails (expired token: the lookup returns an error payload).
    let a2 = d.step(Event::ProbeResponse(None));
    assert_eq!(a2, Action::RequestCredential);
    refreshes += 1;

    let a3 = d.step(Event::TokenResponse(Some(token_doc("fresh-token"))));
    assert_eq!(a3, Action::SaveCache);
    saves += 1;

    let a4 = d.step(Event::SaveOk);
    assert_eq!(a4, Action::QueryLedger);

    assert_eq!(refreshes, 1);
    assert_eq!(saves, 1);
    assert_eq!(d.cache.spotify_access_token, Some("fresh-token".to_string()));
    assert_eq!(d.token, Some("fresh-token".to_string()));
}

#[test]
fn malformed_probe_payload_also_counts_as_stale() {
    let mut cache = Cache::new();
    cache.set_credential("t".to_string());
    let (mut d, _) = Driver::start(20000);
    d.step(Event::CacheRead(cache));
    // A response arrived, but without a usable duration field.
    let a = d.step(Event::ProbeResponse(Some(obj(vec![(
        "error",
        JsonValue::Str("expired".to_string()),
    )]))));
    assert_eq!(a, Action::RequestCredential);
}

#[test]
fn valid_credential_causes_no_refresh_and_no_save() {
    let mut cache = Cache::new();
    cache.set_credential("good-token".to_string());

    let (mut d, _) = Driver::start(20000);
    let a1 = d.step(Event::CacheRead(cache));
    assert_eq!(a1, Action::ProbeCredential);

    // The probe succeeds: the canary lookup returned a duration.
    let a2 = d.step(Event::ProbeResponse(Some(duration_doc(1))));
    assert_eq!(a2, Action::QueryLedger);
    // The cached credential is used unchanged and the cache is not rewritten.
    assert_eq!(d.cache.spotify_access_token, Some("good-token".to_string()));
    assert_eq!(d.token, Some("good-token".to_string()));
}

#[test]
fn failed_refresh_is_fatal() {
    let (mut d, _) = Driver::start(20000);
    d.step(Event::CacheAbsent);
    d.step(Event::SaveOk);
    let a = d.step(Event::TokenResponse(None));
    assert_eq!(a, Action::Stop);
    assert_eq!(d.error, Some(ErrorKind::CredentialUnobtainable));
}

#[test]
fn unseen_track_fetches_once_then_hits_cache() {
    let mut cache = Cache::new();
    cache.set_credential("tok".to_string());

    // First invocation: the track is unseen, so exactly one fetch happens.
    let (mut d, _) = Driver::start(20000);
    d.step(Event::CacheRead(cache));
    d.step(Event::ProbeResponse(Some(duration_doc(1))));
    let a1 = d.step(Event::LedgerResponse(Some(ledger_doc("trackX", "1000000"))));
    assert_eq!(a1, Action::FetchDuration);
    let a2 = d.step(Event::DurationResponse(Some(duration_doc(180000))));
    assert_eq!(a2, Action::SaveCache);
    let a3 = d.step(Event::SaveOk);
    assert_eq!(a3, Action::ReadClock);
    assert_eq!(d.cache.lookup_duration("trackX"), Some(180000));

    // Second invocation with the persisted cache: a pure cache hit.
    let text = encode_cache(&d.cache);
    let reloaded = decode_cache(&text).unwrap();
    let (mut d2, _) = Driver::start(20000);
    d2.step(Event::CacheRead(reloaded));
    d2.step(Event::ProbeResponse(Some(duration_doc(1))));
    let b1 = d2.step(Event::LedgerResponse(Some(ledger_doc("trackX", "1000000"))));
    // No FetchDuration: the machine goes straight to the clock.
    assert_eq!(b1, Action::ReadClock);
    assert_eq!(d2.duration_ms, Some(180000));
}

#[test]
fn empty_queue_fails_with_queue_empty() {
    let mut cache = Cache::new();
    cache.set_credential("tok".to_string());
    let (mut d, _) = Driver::start(20000);
    d.step(Event::CacheRead(cache));
    d.step(Event::ProbeResponse(Some(duration_doc(1))));
    let a = d.step(Event::LedgerResponse(Some(empty_queue_doc())));
    assert_eq!(a, Action::Stop);
    assert_eq!(d.phase, Phase::Failed);
    assert_eq!(d.error, Some(ErrorKind::LedgerQueueEmpty));
}

#[test]
fn ledger_transport_failure_is_query_failed() {
    let mut cache = Cache::new();
    cache.set_credential("tok".to_string());
    let (mut d, _) = Driver::start(20000);
    d.step(Event::CacheRead(cache));
    d.step(Event::ProbeResponse(Some(duration_doc(1))));
    let a = d.step(Event::LedgerResponse(None));
    assert_eq!(a, Action::Stop);
    assert_eq!(d.error, Some(ErrorKind::LedgerQueryFailed));
}

#[test]
fn save_failure_is_fatal() {
    let (mut d, _) = Driver::start(20000);
    d.step(Event::CacheAbsent);
    let a = d.step(Event::SaveFailed);
    assert_eq!(a, Action::Stop);
    assert_eq!(d.error, Some(ErrorKind::CacheWriteFailed));
}

#[test]
fn malformed_duration_payload_is_fatal() {
    let mut cache = Cache::new();
    cache.set_credential("tok".to_string());
    let (mut d, _) = Driver::start(20000);
    d.step(Event::CacheRead(cache));
    d.step(Event::ProbeResponse(Some(duration_doc(1))));
    d.step(Event::LedgerResponse(Some(ledger_doc("t", "1000000"))));
    let a = d.step(Event::DurationResponse(Some(obj(vec![]))));
    assert_eq!(a, Action::Stop);
    assert_eq!(d.error, Some(ErrorKind::RemoteMetadataMalformed));
}

#[test]
fn full_run_triggers_resolution_when_due() {
    // Worked example: start 1000 ms (= 1000000 us), duration 180000 ms,
    // threshold 20000 ms, now 161500 ms -> due.
    let mut cache = Cache::new();
    cache.set_credential("tok".to_string());
    cache.record_duration("trackX".to_string(), 180000);

    let (mut d, a0) = Driver::start(20000);
    assert_eq!(a0, Action::LoadCache);
    assert_eq!(d.step(Event::CacheRead(cache)), Action::ProbeCredential);
    assert_eq!(d.step(Event::ProbeResponse(Some(duration_doc(1)))), Action::QueryLedger);
    assert_eq!(
        d.step(Event::LedgerResponse(Some(ledger_doc("trackX", "1000000")))),
        Action::ReadClock
    );
    assert_eq!(d.step(Event::ClockNow(161500)), Action::TriggerResolution);
    assert_eq!(d.step(Event::TriggerOk), Action::Stop);
    assert_eq!(d.phase, Phase::Done);
    assert!(d.triggered);
}

#[test]
fn full_run_does_not_trigger_before_threshold() {
    let mut cache = Cache::new();
    cache.set_credential("tok".to_string());
    cache.record_duration("trackX".to_string(), 180000);

    let (mut d, _) = Driver::start(20000);
    d.step(Event::CacheRead(cache));
    d.step(Event::ProbeResponse(Some(duration_doc(1))));
    d.step(Event::LedgerResponse(Some(ledger_doc("trackX", "1000000"))));
    // Exactly at the boundary: strictly greater is required.
    let a = d.step(Event::ClockNow(161000));
    assert_eq!(a, Action::Stop);
    assert_eq!(d.phase, Phase::Done);
    assert!(!d.triggered);
    assert!(d.error.is_none());
}

#[test]
fn failed_trigger_is_mutation_failed() {
    let mut cache = Cache::new();
    cache.set_credential("tok".to_string());
    cache.record_duration("t".to_string(), 10);
    let (mut d, _) = Driver::start(20000);
    d.step(Event::CacheRead(cache));
    d.step(Event::ProbeResponse(Some(duration_doc(1))));
    d.step(Event::LedgerResponse(Some(ledger_doc("t", "1000000"))));
    assert_eq!(d.step(Event::ClockNow(u64::MAX)), Action::TriggerResolution);
    let a = d.step(Event::TriggerFailed);
    assert_eq!(a, Action::Stop);
    assert_eq!(d.phase, Phase::Failed);
    assert_eq!(d.error, Some(ErrorKind::LedgerMutationFailed));
}
