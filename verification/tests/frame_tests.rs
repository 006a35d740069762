use ws_benchmark::frame::{decode_frame, extract_timestamp, ts_value, InboundFrame, TsField};

fn decode(text: &str) -> Option<InboundFrame> {
    decode_frame(&text.as_bytes().to_vec())
}

#[test]
fn decodes_event_and_channel() {
    let fr = decode(r#"{"event":"new_pair","channel":"tokens_v1","data":{}}"#).unwrap();
    assert_eq!(fr.event, b"new_pair".to_vec());
    assert_eq!(fr.channel, Some(b"tokens_v1".to_vec()));
}

#[test]
fn missing_channel_and_null_channel_decode_as_none() {
    let fr = decode(r#"{"event":"e"}"#).unwrap();
    assert_eq!(fr.channel, None);
    let fr = decode(r#"{"event":"e","channel":null}"#).unwrap();
    assert_eq!(fr.channel, None);
}

#[test]
fn dropped_frames_yield_nothing() {
    assert!(decode("not json").is_none());
    assert!(decode("ping").is_none());
    assert!(decode(r#"{"channel":"c"}"#).is_none());
    assert!(decode(r#"{"event":5}"#).is_none());
    assert!(decode(r#"{"event":"e","channel":7}"#).is_none());
    assert!(decode("[1,2,3]").is_none());
}

#[test]
fn integer_timestamp_at_root_tags() {
    let fr = decode(r#"{"event":"d","channel":"c","tags":{"timestamp":1234}}"#).unwrap();
    assert_eq!(extract_timestamp(&fr), Some(1234));
}

#[test]
fn string_and_integer_encodings_agree() {
    let a = decode(r#"{"event":"d","channel":"c","tags":{"timestamp":98765}}"#).unwrap();
    let b = decode(r#"{"event":"d","channel":"c","tags":{"timestamp":"98765"}}"#).unwrap();
    assert_eq!(extract_timestamp(&a), extract_timestamp(&b));
    assert_eq!(extract_timestamp(&a), Some(98765));
}

#[test]
fn extraction_is_pure() {
    let fr = decode(r#"{"event":"d","data":{"tags":{"timestamp":"42"}}}"#).unwrap();
    assert_eq!(extract_timestamp(&fr), extract_timestamp(&fr));
    assert_eq!(extract_timestamp(&fr), Some(42));
}

#[test]
fn search_order_prefers_root_tags_then_data_tags_then_data() {
    let fr = decode(
        r#"{"event":"d","tags":{"timestamp":1},"data":{"tags":{"timestamp":2},"timestamp":3}}"#,
    )
    .unwrap();
    assert_eq!(extract_timestamp(&fr), Some(1));
    let fr = decode(r#"{"event":"d","data":{"tags":{"timestamp":2},"timestamp":3}}"#).unwrap();
    assert_eq!(extract_timestamp(&fr), Some(2));
    let fr = decode(r#"{"event":"d","data":{"timestamp":3}}"#).unwrap();
    assert_eq!(extract_timestamp(&fr), Some(3));
}

#[test]
fn unusable_location_falls_through_to_the_next() {
    let fr = decode(r#"{"event":"d","tags":{"timestamp":"nope"},"data":{"timestamp":7}}"#).unwrap();
    assert_eq!(extract_timestamp(&fr), Some(7));
    let fr = decode(r#"{"event":"d","tags":{"timestamp":true},"data":{"timestamp":8}}"#).unwrap();
    assert_eq!(extract_timestamp(&fr), Some(8));
}

#[test]
fn absent_timestamp_yields_nothing() {
    let fr = decode(r#"{"event":"d","channel":"c","data":{"x":1}}"#).unwrap();
    assert_eq!(extract_timestamp(&fr), None);
    let fr = decode(r#"{"event":"d"}"#).unwrap();
    assert_eq!(extract_timestamp(&fr), None);
}

#[test]
fn ts_value_parses_decimal_strings_strictly() {
    assert_eq!(ts_value(&TsField::Text(b"123".to_vec())), Some(123));
    assert_eq!(ts_value(&TsField::Text(b"".to_vec())), None);
    assert_eq!(ts_value(&TsField::Text(b"12x".to_vec())), None);
    assert_eq!(ts_value(&TsField::Text(b"18446744073709551615".to_vec())), Some(u64::MAX));
    assert_eq!(ts_value(&TsField::Text(b"18446744073709551616".to_vec())), None);
    assert_eq!(ts_value(&TsField::UInt(5)), Some(5));
    assert_eq!(ts_value(&TsField::Absent), None);
    assert_eq!(ts_value(&TsField::Other), None);
}

#[test]
fn negative_and_fractional_numbers_are_not_timestamps() {
    let fr = decode(r#"{"event":"d","tags":{"timestamp":-5}}"#).unwrap();
    assert_eq!(extract_timestamp(&fr), None);
    let fr = decode(r#"{"event":"d","tags":{"timestamp":1.5}}"#).unwrap();
    assert_eq!(extract_timestamp(&fr), None);
}
