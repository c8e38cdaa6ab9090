use jukebox_driver::errors::ErrorKind;
use jukebox_driver::resource::extract_current_song;
use jukebox_driver::resource::into_field;
use jukebox_driver::resource::resolve_votes_function_id;
use jukebox_driver::resource::resource_type_string;
use jukebox_driver::resource::JsonValue;

fn obj(fields: Vec<(&str, JsonValue)>) -> JsonValue {
    JsonValue::Obj(fields.into_iter().map(|(k, v)| (k.to_string(), v)).collect())
}

fn resource_doc(queue: Vec<JsonValue>, stamp: &str) -> JsonValue {
    obj(vec![(
        "inner",
        obj(vec![
            ("song_queue", JsonValue::Arr(queue)),
            ("time_to_start_playing", JsonValue::Str(stamp.to_string())),
        ]),
    )])
}

fn queue_entry(track_id: &str) -> JsonValue {
    obj(vec![("track_id", JsonValue::Str(track_id.to_string()))])
}

#[test]
fn extracts_head_of_queue() {
    let doc = resource_doc(vec![queue_entry("trackA"), queue_entry("trackB")], "1650000000000000");
    let info = extract_current_song(&doc).expect("well-formed document");
    assert_eq!(info.track_id, "trackA");
    assert_eq!(info.time_to_start_playing, 1650000000000000);
    assert_eq!(info.playback_start_ms(), 1650000000000);
}

#[test]
fn empty_queue_is_its_own_error() {
    // An empty on-chain queue must surface as such, never as a zeroed song.
    let doc = resource_doc(vec![], "1650000000000000");
    assert_eq!(extract_current_song(&doc).unwrap_err(), ErrorKind::LedgerQueueEmpty);
}

#[test]
fn missing_inner_is_malformed() {
    let doc = obj(vec![("other", JsonValue::Null)]);
    assert_eq!(
        extract_current_song(&doc).unwrap_err(),
        ErrorKind::RemoteMetadataMalformed
    );
}

#[test]
fn missing_song_queue_is_malformed() {
    let doc = obj(vec![("inner", obj(vec![("time_to_start_playing", JsonValue::Str("1".to_string()))]))]);
    assert_eq!(
        extract_current_song(&doc).unwrap_err(),
        ErrorKind::RemoteMetadataMalformed
    );
}

#[test]
fn non_string_track_id_is_malformed() {
    let entry = obj(vec![("track_id", JsonValue::UInt(5))]);
    let doc = resource_doc(vec![entry], "1");
    assert_eq!(
        extract_current_song(&doc).unwrap_err(),
        ErrorKind::RemoteMetadataMalformed
    );
}

#[test]
fn unparseable_timestamp_is_malformed() {
    let doc = resource_doc(vec![queue_entry("t")], "12a34");
    assert_eq!(
        extract_current_song(&doc).unwrap_err(),
        ErrorKind::RemoteMetadataMalformed
    );
    let doc2 = resource_doc(vec![queue_entry("t")], "");
    assert_eq!(
        extract_current_song(&doc2).unwrap_err(),
        ErrorKind::RemoteMetadataMalformed
    );
    // Larger than any 64-bit value.
    let doc3 = resource_doc(vec![queue_entry("t")], "99999999999999999999999999");
    assert_eq!(
        extract_current_song(&doc3).unwrap_err(),
        ErrorKind::RemoteMetadataMalformed
    );
}

#[test]
fn numeric_timestamp_is_malformed() {
    // The field is transported as a string; a bare number is a shape error.
    let doc = obj(vec![(
        "inner",
        obj(vec![
            ("song_queue", JsonValue::Arr(vec![queue_entry("t")])),
            ("time_to_start_playing", JsonValue::UInt(1)),
        ]),
    )]);
    assert_eq!(
        extract_current_song(&doc).unwrap_err(),
        ErrorKind::RemoteMetadataMalformed
    );
}

#[test]
fn envelope_data_is_unwrapped() {
    let envelope = obj(vec![
        ("type", JsonValue::Str("0x1::jukebox::Jukebox".to_string())),
        ("data", obj(vec![("inner", JsonValue::Null)])),
    ]);
    match into_field(envelope, "data") {
        Some(JsonValue::Obj(fields)) => {
            assert_eq!(fields.len(), 1);
            assert_eq!(fields[0].0, "inner");
        }
        _ => panic!("expected the data object"),
    }
    assert!(into_field(obj(vec![("type", JsonValue::Null)]), "data").is_none());
    assert!(into_field(JsonValue::Null, "data").is_none());
}

#[test]
fn resource_type_is_fully_qualified() {
    assert_eq!(
        resource_type_string("1abc23", "jukebox", "Jukebox"),
        "0x1abc23::jukebox::Jukebox"
    );
}

#[test]
fn resolution_action_coordinates() {
    assert_eq!(
        resolve_votes_function_id("1abc23", "jukebox"),
        "0x1abc23::jukebox::resolve_votes"
    );
}
