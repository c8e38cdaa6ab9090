use jukebox_driver::resource::JsonValue;
use jukebox_driver::spotify::basic_auth_header;
use jukebox_driver::spotify::canary_track_id;
use jukebox_driver::spotify::SpotifyArgs;
use jukebox_driver::spotify::extract_access_token;
use jukebox_driver::spotify::extract_duration_ms;

fn obj(fields: Vec<(&str, JsonValue)>) -> JsonValue {
    JsonValue::Obj(fields.into_iter().map(|(k, v)| (k.to_string(), v)).collect())
}

#[test]
fn basic_auth_header_encodes_credentials() {
    // base64("abc:def") with the standard alphabet and padding.
    assert_eq!(basic_auth_header("abc", "def"), "Basic YWJjOmRlZg==");
}

#[test]
fn basic_auth_header_empty_secret() {
    // base64("id:") — would fail if the encoder handed its input back.
    assert_eq!(basic_auth_header("id", ""), "Basic aWQ6");
}

#[test]
fn credentials_yield_the_same_header() {
    let creds = SpotifyArgs {
        spotify_client_id: "abc".to_string(),
        spotify_client_secret: "def".to_string(),
    };
    assert_eq!(creds.authorization_header(), "Basic YWJjOmRlZg==");
}

#[test]
fn boundary_strings_are_fixed() {
    assert_eq!(
        jukebox_driver::spotify::token_endpoint_url(),
        "https://accounts.spotify.com/api/token"
    );
    assert_eq!(
        jukebox_driver::spotify::token_request_form(),
        "grant_type=client_credentials"
    );
    assert_eq!(
        jukebox_driver::spotify::track_lookup_url("0H8XeaJunhvpBdBFIYi6Sh"),
        "https://api.spotify.com/v1/tracks/0H8XeaJunhvpBdBFIYi6Sh"
    );
    assert_eq!(jukebox_driver::spotify::bearer_header("tok"), "Bearer tok");
}

#[test]
fn canary_is_fixed() {
    assert_eq!(canary_track_id(), "0H8XeaJunhvpBdBFIYi6Sh");
}

#[test]
fn access_token_extracted() {
    let doc = obj(vec![("access_token", JsonValue::Str("BQDtok".to_string()))]);
    assert_eq!(extract_access_token(&doc), Some("BQDtok".to_string()));
}

#[test]
fn access_token_missing_or_wrong_type() {
    let doc = obj(vec![("error", JsonValue::Str("invalid_client".to_string()))]);
    assert_eq!(extract_access_token(&doc), None);
    let doc2 = obj(vec![("access_token", JsonValue::UInt(7))]);
    assert_eq!(extract_access_token(&doc2), None);
    assert_eq!(extract_access_token(&JsonValue::Null), None);
}

#[test]
fn duration_extracted() {
    let doc = obj(vec![("duration_ms", JsonValue::UInt(215000))]);
    assert_eq!(extract_duration_ms(&doc), Some(215000));
}

#[test]
fn duration_missing_or_wrong_type() {
    let doc = obj(vec![("duration_ms", JsonValue::Str("215000".to_string()))]);
    assert_eq!(extract_duration_ms(&doc), None);
    assert_eq!(extract_duration_ms(&obj(vec![])), None);
}
