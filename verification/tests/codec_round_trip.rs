use jukebox_driver::cache::Cache;
use jukebox_driver::codec::decode_cache;
use jukebox_driver::codec::encode_cache;
use jukebox_driver::errors::ErrorKind;

fn assert_round_trips(c: &Cache) {
    let text = encode_cache(c);
    let back = decode_cache(&text).expect("an encoded cache must decode");
    assert_eq!(back.spotify_access_token, c.spotify_access_token);
    assert_eq!(back.track_durations, c.track_durations);
}

#[test]
fn empty_cache_encodes_canonically() {
    let c = Cache::new();
    assert_eq!(
        encode_cache(&c),
        "{\"spotify_access_token\":null,\"track_durations\":{}}"
    );
}

#[test]
fn round_trip_empty() {
    assert_round_trips(&Cache::new());
}

#[test]
fn round_trip_credential_absent_with_entries() {
    let mut c = Cache::new();
    c.record_duration("0H8XeaJunhvpBdBFIYi6Sh".to_string(), 215000);
    c.record_duration("x".to_string(), 1);
    assert_round_trips(&c);
}

#[test]
fn round_trip_credential_present() {
    let mut c = Cache::new();
    c.set_credential("BQDn3-token".to_string());
    c.record_duration("abc".to_string(), 180000);
    assert_round_trips(&c);
}

#[test]
fn round_trip_with_escaped_characters() {
    let mut c = Cache::new();
    c.set_credential("a\"b\\c".to_string());
    c.record_duration("id-with-\"quote".to_string(), 42);
    assert_round_trips(&c);
}

#[test]
fn round_trip_extreme_duration() {
    let mut c = Cache::new();
    c.record_duration("max".to_string(), u64::MAX);
    c.record_duration("zero".to_string(), 0);
    assert_round_trips(&c);
}

#[test]
fn decodes_serde_style_record() {
    let text = "{\"spotify_access_token\":\"tok\",\"track_durations\":{\"abc\":123,\"def\":456}}";
    let c = decode_cache(text).expect("well-formed record");
    assert_eq!(c.spotify_access_token, Some("tok".to_string()));
    assert_eq!(c.track_durations.len(), 2);
    assert_eq!(c.lookup_duration("abc"), Some(123));
    assert_eq!(c.lookup_duration("def"), Some(456));
}

#[test]
fn decodes_simple_escapes() {
    let text = "{\"spotify_access_token\":\"a\\n\\t\\r\\/\\\"\\\\b\",\"track_durations\":{}}";
    let c = decode_cache(text).expect("escapes are part of the format");
    assert_eq!(c.spotify_access_token, Some("a\n\t\r/\"\\b".to_string()));
}

#[test]
fn garbage_is_corrupt() {
    assert_eq!(decode_cache("not json at all").unwrap_err(), ErrorKind::CacheCorrupt);
    assert_eq!(decode_cache("").unwrap_err(), ErrorKind::CacheCorrupt);
}

#[test]
fn truncated_record_is_corrupt() {
    assert_eq!(
        decode_cache("{\"spotify_access_token\":null,\"track_durations\":{").unwrap_err(),
        ErrorKind::CacheCorrupt
    );
}

#[test]
fn trailing_data_is_corrupt() {
    assert_eq!(
        decode_cache("{\"spotify_access_token\":null,\"track_durations\":{}}x").unwrap_err(),
        ErrorKind::CacheCorrupt
    );
}

#[test]
fn duplicate_keys_are_corrupt() {
    assert_eq!(
        decode_cache("{\"spotify_access_token\":null,\"track_durations\":{\"a\":1,\"a\":2}}")
            .unwrap_err(),
        ErrorKind::CacheCorrupt
    );
}

#[test]
fn overflowing_duration_is_corrupt() {
    let ok = "{\"spotify_access_token\":null,\"track_durations\":{\"a\":18446744073709551615}}";
    assert!(decode_cache(ok).is_ok());
    let over = "{\"spotify_access_token\":null,\"track_durations\":{\"a\":18446744073709551616}}";
    assert_eq!(decode_cache(over).unwrap_err(), ErrorKind::CacheCorrupt);
}

#[test]
fn either_field_order_decodes() {
    let c = decode_cache("{\"track_durations\":{\"a\":7},\"spotify_access_token\":\"tok\"}")
        .expect("field order is free in a JSON object");
    assert_eq!(c.spotify_access_token, Some("tok".to_string()));
    assert_eq!(c.lookup_duration("a"), Some(7));
}

#[test]
fn whitespace_formatted_record_decodes() {
    let text = "{\n  \"spotify_access_token\" : null ,\n  \"track_durations\" : {\n    \"a\" : 1 ,\n    \"b\" : 2\n  }\n}\n";
    let c = decode_cache(text).expect("whitespace between tokens is allowed");
    assert!(c.spotify_access_token.is_none());
    assert_eq!(c.lookup_duration("a"), Some(1));
    assert_eq!(c.lookup_duration("b"), Some(2));
}

#[test]
fn unicode_and_control_escapes_decode() {
    let text = "{\"spotify_access_token\":\"\\u0041\\u00e9\\b\\f\",\"track_durations\":{}}";
    let c = decode_cache(text).expect("\\uXXXX and \\b \\f are part of the format");
    assert_eq!(c.spotify_access_token, Some("A\u{e9}\u{8}\u{c}".to_string()));
}

#[test]
fn bad_unicode_escapes_are_corrupt() {
    // A lone surrogate code is not a character.
    let surrogate = "{\"spotify_access_token\":\"\\ud800\",\"track_durations\":{}}";
    assert_eq!(decode_cache(surrogate).unwrap_err(), ErrorKind::CacheCorrupt);
    // Non-hex digits after \u.
    let bad_hex = "{\"spotify_access_token\":\"\\uZZ11\",\"track_durations\":{}}";
    assert_eq!(decode_cache(bad_hex).unwrap_err(), ErrorKind::CacheCorrupt);
}

#[test]
fn missing_field_is_corrupt() {
    assert_eq!(
        decode_cache("{\"spotify_access_token\":null}").unwrap_err(),
        ErrorKind::CacheCorrupt
    );
    assert_eq!(
        decode_cache("{\"track_durations\":{}}").unwrap_err(),
        ErrorKind::CacheCorrupt
    );
}
