//! The metadata-API side: client credentials, the basic-auth header for the
//! token endpoint, the canary used to probe credential health, and the
//! verified extraction of the two response payloads the core reads.

use vstd::prelude::*;
use vstd::string::StringExecFns;
use crate::resource::JsonValue;

verus! {

/// Client credentials for the metadata API's token endpoint.
pub struct SpotifyArgs {
    /// The client id for the metadata API developer account.
    pub spotify_client_id: String,
    /// The client secret for the metadata API developer account.
    pub spotify_client_secret: String,
}

impl SpotifyArgs {
    /// The Authorization header value these credentials yield.
    pub fn authorization_header(&self) -> (r: String)
        ensures
            r@ == "Basic "@ + base64_of(
                self.spotify_client_id@ + ":"@ + self.spotify_client_secret@,
            ),
    {
        basic_auth_header(self.spotify_client_id.as_str(), self.spotify_client_secret.as_str())
    }
}

/// The fixed, always-valid track id used only to probe credential health,
/// never for the real workload.
pub fn canary_track_id() -> (r: &'static str)
    ensures
        r@ == "0H8XeaJunhvpBdBFIYi6Sh"@,
{
    "0H8XeaJunhvpBdBFIYi6Sh"
}

/// The base64 encoding (standard alphabet, padded) of a string's UTF-8
/// bytes, as `base64::encode` computes it.
pub uninterp spec fn base64_of(s: Seq<char>) -> Seq<char>;

/// Relies on `base64::encode`: the encoding is a function of the input
/// bytes alone, here the UTF-8 bytes of the given string.
#[verifier::external_body]
fn base64_encode_str(s: &str) -> (r: String)
    ensures
        r@ == base64_of(s@),
{
    base64::encode(s.as_bytes())
}

/// The value of the Authorization header the token endpoint expects:
/// `Basic ` followed by the base64 of `id:secret`.
pub fn basic_auth_header(client_id: &str, client_secret: &str) -> (r: String)
    ensures
        r@ == "Basic "@ + base64_of(client_id@ + ":"@ + client_secret@),
{
    let mut creds = String::from_str(client_id);
    creds.append(":");
    creds.append(client_secret);
    let encoded = base64_encode_str(creds.as_str());
    let mut out = String::from_str("Basic ");
    out.append(encoded.as_str());
    out
}

/// The metadata API's token endpoint.
pub fn token_endpoint_url() -> (r: &'static str)
    ensures
        r@ == "https://accounts.spotify.com/api/token"@,
{
    "https://accounts.spotify.com/api/token"
}

/// The form body of a client-credentials token request.
pub fn token_request_form() -> (r: &'static str)
    ensures
        r@ == "grant_type=client_credentials"@,
{
    "grant_type=client_credentials"
}

/// The metadata API's track-lookup URL for a track id.
pub fn track_lookup_url(track_id: &str) -> (r: String)
    ensures
        r@ == "https://api.spotify.com/v1/tracks/"@ + track_id@,
{
    let mut out = String::from_str("https://api.spotify.com/v1/tracks/");
    out.append(track_id);
    out
}

/// The Authorization header value a bearer credential yields.
pub fn bearer_header(token: &str) -> (r: String)
    ensures
        r@ == "Bearer "@ + token@,
{
    let mut out = String::from_str("Bearer ");
    out.append(token);
    out
}

/// The bearer token a token-endpoint response carries: its `access_token`
/// field, which must be a string.
pub open spec fn access_token_spec(doc: JsonValue) -> Option<Seq<char>> {
    match doc.spec_get("access_token"@) {
        Some(JsonValue::Str(s)) => Some(s@),
        _ => None,
    }
}

/// Extracts the bearer token from a token-endpoint response document.
pub fn extract_access_token(doc: &JsonValue) -> (r: Option<String>)
    ensures
        match r {
            Some(tok) => access_token_spec(*doc) == Some(tok@),
            None => access_token_spec(*doc) is None,
        },
{
    match crate::resource::obj_get(doc, "access_token") {
        Some(JsonValue::Str(s)) => Some(s.clone()),
        _ => None,
    }
}

/// The duration a track-lookup response carries: its `duration_ms` field,
/// which must be an unsigned integer.
pub open spec fn duration_ms_spec(doc: JsonValue) -> Option<u64> {
    match doc.spec_get("duration_ms"@) {
        Some(JsonValue::UInt(d)) => Some(d),
        _ => None,
    }
}

/// Extracts a track's duration in milliseconds from a track-lookup
/// response document.
pub fn extract_duration_ms(doc: &JsonValue) -> (r: Option<u64>)
    ensures
        r == duration_ms_spec(*doc),
{
    match crate::resource::obj_get(doc, "duration_ms") {
        Some(JsonValue::UInt(d)) => Some(*d),
        _ => None,
    }
}

} // verus!
