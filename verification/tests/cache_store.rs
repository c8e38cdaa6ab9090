use jukebox_driver::cache::Cache;

#[test]
fn fresh_cache_is_empty() {
    let c = Cache::new();
    assert!(c.spotify_access_token.is_none());
    assert_eq!(c.track_durations.len(), 0);
    assert_eq!(c.lookup_duration("anything"), None);
}

#[test]
fn recorded_duration_is_found() {
    let mut c = Cache::new();
    c.record_duration("track-a".to_string(), 180000);
    assert_eq!(c.lookup_duration("track-a"), Some(180000));
    assert_eq!(c.lookup_duration("track-b"), None);
}

#[test]
fn several_durations_coexist() {
    let mut c = Cache::new();
    c.record_duration("a".to_string(), 1);
    c.record_duration("b".to_string(), 2);
    c.record_duration("c".to_string(), 3);
    assert_eq!(c.lookup_duration("a"), Some(1));
    assert_eq!(c.lookup_duration("b"), Some(2));
    assert_eq!(c.lookup_duration("c"), Some(3));
}

#[test]
fn set_credential_keeps_durations() {
    let mut c = Cache::new();
    c.record_duration("a".to_string(), 7);
    c.set_credential("tok".to_string());
    assert_eq!(c.spotify_access_token, Some("tok".to_string()));
    assert_eq!(c.lookup_duration("a"), Some(7));
    c.set_credential("tok2".to_string());
    assert_eq!(c.spotify_access_token, Some("tok2".to_string()));
}
