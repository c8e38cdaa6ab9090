//! The song-state fetch, normalized: a plain model of the JSON-like
//! document the ledger returns for the jukebox resource, and the verified
//! extraction of the head-of-queue song and its scheduled start time.
//! The transport fetches the document; converting it into `JsonValue` is a
//! mechanical, variant-for-variant copy.

use vstd::prelude::*;
use vstd::string::StringExecFns;
use crate::errors::ErrorKind;
use crate::numbers::dec_u64;
use crate::numbers::parse_u64_str;

verus! {

/// A JSON-like document holding only what the core reads: objects, arrays,
/// strings, unsigned integers, booleans and null. Numbers outside `u64`
/// never occur in the fields the core reads; the transport maps them to
/// `Null`.
pub enum JsonValue {
    Null,
    Bool(bool),
    UInt(u64),
    Str(String),
    Arr(Vec<JsonValue>),
    Obj(Vec<(String, JsonValue)>),
}

/// First entry with the given key, if any (document objects have unique
/// keys, so first-match equals any-match).
pub open spec fn obj_get_spec(entries: Seq<(String, JsonValue)>, key: Seq<char>) -> Option<
    JsonValue,
>
    decreases entries.len(),
{
    if entries.len() == 0 {
        None
    } else if entries[0].0@ == key {
        Some(entries[0].1)
    } else {
        obj_get_spec(entries.drop_first(), key)
    }
}

impl JsonValue {
    /// Field lookup: defined only on objects.
    pub open spec fn spec_get(self, key: Seq<char>) -> Option<JsonValue> {
        match self {
            JsonValue::Obj(entries) => obj_get_spec(entries@, key),
            _ => None,
        }
    }
}

/// Looks a key up in a document value; `None` when the value is not an
/// object or the key is absent.
#[verifier::loop_isolation(false)]
pub fn obj_get<'a>(v: &'a JsonValue, key: &str) -> (r: Option<&'a JsonValue>)
    ensures
        match r {
            Some(x) => v.spec_get(key@) == Some(*x),
            None => v.spec_get(key@) is None,
        },
{
    match v {
        JsonValue::Obj(entries) => {
            let k: String = key.to_owned();
            let mut i: usize = 0;
            proof {
                assert(entries@.skip(0) =~= entries@);
            }
            while i < entries.len()
                invariant
                    i <= entries.len(),
                    obj_get_spec(entries@, key@) == obj_get_spec(
                        entries@.skip(i as int),
                        key@,
                    ),
                decreases entries.len() - i,
            {
                proof {
                    assert(entries@.skip(i as int)[0] == entries@[i as int]);
                }
                if entries[i].0 == k {
                    return Some(&entries[i].1);
                }
                proof {
                    assert(entries@.skip(i as int).drop_first() =~= entries@.skip(i as int + 1));
                }
                i = i + 1;
            }
            proof {
                assert(entries@.skip(entries@.len() as int).len() == 0);
            }
            None
        },
        _ => None,
    }
}

/// First field with the given key, moved out of the document: the owned
/// counterpart of `obj_get`, for callers that need the value itself — such
/// as unwrapping the `data` object out of a REST resource envelope.
#[verifier::loop_isolation(false)]
pub fn into_field(doc: JsonValue, key: &str) -> (r: Option<JsonValue>)
    ensures
        match r {
            Some(x) => doc.spec_get(key@) == Some(x),
            None => doc.spec_get(key@) is None,
        },
{
    let ghost gdoc = doc;
    match doc {
        JsonValue::Obj(mut entries) => {
            let ghost orig = entries@;
            let k: String = key.to_owned();
            let mut i: usize = 0;
            proof {
                assert(orig.skip(0) =~= orig);
            }
            while i < entries.len()
                invariant
                    i <= entries.len(),
                    entries@ == orig,
                    obj_get_spec(orig, key@) == obj_get_spec(orig.skip(i as int), key@),
                decreases entries.len() - i,
            {
                proof {
                    assert(orig.skip(i as int)[0] == orig[i as int]);
                }
                if entries[i].0 == k {
                    let p = entries.remove(i);
                    return Some(p.1);
                }
                proof {
                    assert(orig.skip(i as int).drop_first() =~= orig.skip(i as int + 1));
                }
                i = i + 1;
            }
            proof {
                assert(orig.skip(orig.len() as int).len() == 0);
            }
            None
        },
        _ => None,
    }
}

/// The song presently at the head of the on-chain queue. Fetched fresh
/// every invocation; never persisted.
#[derive(Debug)]
pub struct CurrentSongInfo {
    /// The Spotify track id of the song currently playing.
    pub track_id: String,
    /// Microseconds since the epoch at which this song started (or is
    /// scheduled to start) playing.
    pub time_to_start_playing: u64,
}

impl CurrentSongInfo {
    /// The scheduled start in the canonical unit, milliseconds.
    pub fn playback_start_ms(&self) -> (r: u64)
        ensures
            r == self.time_to_start_playing / 1000,
    {
        self.time_to_start_playing / 1000
    }
}

/// What the extraction returns on each document: the head entry's track id
/// and the start time coerced from its string transport form, or the exact
/// error. An empty queue is `LedgerQueueEmpty`; every missing or
/// wrong-typed field is `RemoteMetadataMalformed`.
pub open spec fn current_song_spec(doc: JsonValue) -> Result<(Seq<char>, u64), ErrorKind> {
    match doc.spec_get("inner"@) {
        None => Err(ErrorKind::RemoteMetadataMalformed),
        Some(inner) => match inner.spec_get("song_queue"@) {
            None => Err(ErrorKind::RemoteMetadataMalformed),
            Some(queue) => match queue {
                JsonValue::Arr(items) => if items@.len() == 0 {
                    Err(ErrorKind::LedgerQueueEmpty)
                } else {
                    match items@[0].spec_get("track_id"@) {
                        None => Err(ErrorKind::RemoteMetadataMalformed),
                        Some(tid) => match tid {
                            JsonValue::Str(track) => match inner.spec_get(
                                "time_to_start_playing"@,
                            ) {
                                None => Err(ErrorKind::RemoteMetadataMalformed),
                                Some(tts) => match tts {
                                    JsonValue::Str(stamp) => match dec_u64(stamp@) {
                                        Some(us) => Ok((track@, us)),
                                        None => Err(ErrorKind::RemoteMetadataMalformed),
                                    },
                                    _ => Err(ErrorKind::RemoteMetadataMalformed),
                                },
                            },
                            _ => Err(ErrorKind::RemoteMetadataMalformed),
                        },
                    }
                },
                _ => Err(ErrorKind::RemoteMetadataMalformed),
            },
        },
    }
}

/// Extracts the current song from the resource document: the head of
/// `inner.song_queue` and `inner.time_to_start_playing` (transported as a
/// decimal string), exactly as `current_song_spec` states.
pub fn extract_current_song(doc: &JsonValue) -> (r: Result<CurrentSongInfo, ErrorKind>)
    ensures
        match r {
            Ok(info) => current_song_spec(*doc) == Ok::<(Seq<char>, u64), ErrorKind>(
                (info.track_id@, info.time_to_start_playing),
            ),
            Err(e) => current_song_spec(*doc) == Err::<(Seq<char>, u64), ErrorKind>(e),
        },
{
    let inner = match obj_get(doc, "inner") {
        Some(v) => v,
        None => {
            return Err(ErrorKind::RemoteMetadataMalformed);
        },
    };
    let queue = match obj_get(inner, "song_queue") {
        Some(v) => v,
        None => {
            return Err(ErrorKind::RemoteMetadataMalformed);
        },
    };
    let items = match queue {
        JsonValue::Arr(items) => items,
        _ => {
            return Err(ErrorKind::RemoteMetadataMalformed);
        },
    };
    if items.len() == 0 {
        return Err(ErrorKind::LedgerQueueEmpty);
    }
    let track = match obj_get(&items[0], "track_id") {
        Some(JsonValue::Str(track)) => track,
        Some(_) => {
            return Err(ErrorKind::RemoteMetadataMalformed);
        },
        None => {
            return Err(ErrorKind::RemoteMetadataMalformed);
        },
    };
    let stamp = match obj_get(inner, "time_to_start_playing") {
        Some(JsonValue::Str(stamp)) => stamp,
        Some(_) => {
            return Err(ErrorKind::RemoteMetadataMalformed);
        },
        None => {
            return Err(ErrorKind::RemoteMetadataMalformed);
        },
    };
    let us = match parse_u64_str(stamp.as_str()) {
        Some(us) => us,
        None => {
            return Err(ErrorKind::RemoteMetadataMalformed);
        },
    };
    Ok(CurrentSongInfo { track_id: track.clone(), time_to_start_playing: us })
}

/// The fully-qualified on-chain resource type addressed by
/// `(account, module, struct)` coordinates.
pub fn resource_type_string(module_address_hex: &str, module_name: &str, struct_name: &str) -> (r:
    String)
    ensures
        r@ == "0x"@ + module_address_hex@ + "::"@ + module_name@ + "::"@ + struct_name@,
{
    let mut out = String::from_str("0x");
    out.append(module_address_hex);
    out.append("::");
    out.append(module_name);
    out.append("::");
    out.append(struct_name);
    out
}

/// Coordinates of the ledger action that resolves the round. The module is
/// assumed to expose the action under the fixed name `resolve_votes`.
pub fn resolve_votes_function_id(module_address_hex: &str, module_name: &str) -> (r: String)
    ensures
        r@ == "0x"@ + module_address_hex@ + "::"@ + module_name@ + "::resolve_votes"@,
{
    let mut out = String::from_str("0x");
    out.append(module_address_hex);
    out.append("::");
    out.append(module_name);
    out.append("::resolve_votes");
    out
}

/// Resource budget for the resolution action, in gas units.
pub const MAX_GAS_AMOUNT: u64 = 500000;

/// Price per gas unit offered for the resolution action.
pub const GAS_UNIT_PRICE: u64 = 200;

} // verus!
