//! Inbound frame decoding and timestamp extraction. JSON parsing is done
//! by sonic_rs behind one trusted decoder whose result carries a name, so
//! that callers' contracts are total over what a frame decodes to. What
//! the harness reads from a frame — the event name, the channel, and the
//! timestamp candidates at the three search locations — is pulled into a
//! plain-value frame model, and everything downstream of that model is
//! verified.

use vstd::prelude::*;
use sonic_rs::JsonValueTrait;
use crate::bytes::{spec_parse_u64, parse_u64_dec};

verus! {

#[verifier::external_type_specification]
#[verifier::external_body]
pub struct ExValue(sonic_rs::Value);

/// A timestamp candidate at one search location.
pub enum TsField {
    /// The location does not exist in the frame.
    Absent,
    /// An unsigned integer.
    UInt(u64),
    /// A JSON string, possibly a decimal number.
    Text(Vec<u8>),
    /// Present but neither an unsigned integer nor a string.
    Other,
}

/// What the harness reads from an inbound frame: the event name, the
/// channel if any, and the timestamp candidates at the three search
/// locations (`tags.timestamp`, `data.tags.timestamp`, `data.timestamp`).
pub struct InboundFrame {
    pub event: Vec<u8>,
    pub channel: Option<Vec<u8>>,
    pub root_tags_ts: TsField,
    pub data_tags_ts: TsField,
    pub data_ts: TsField,
}

/// What decoding an inbound text frame yields: the frame model for a
/// well-formed frame, nothing for anything the harness drops. The result
/// is a function of the bytes alone.
pub uninterp spec fn spec_decoded(text: Seq<u8>) -> Option<InboundFrame>;

/// One piece of the trusted decoder below: the channel field. Relies on
/// sonic_rs's `get`, `is_null` and `as_str`: a missing or null channel is
/// no channel; a present non-string one makes the frame invalid.
#[verifier::external_body]
fn channel_field(v: &sonic_rs::Value) -> (r: Option<Option<Vec<u8>>>) {
    match v.get("channel") {
        None => Some(None),
        Some(c) if c.is_null() => Some(None),
        Some(c) => Some(Some(c.as_str()?.as_bytes().to_vec())),
    }
}

/// One piece of the trusted decoder below: a timestamp candidate. Relies
/// on sonic_rs's `as_u64` and `as_str` to tell the value's kind.
#[verifier::external_body]
fn ts_field(o: Option<&sonic_rs::Value>) -> (r: TsField) {
    match (o.and_then(|v| v.as_u64()), o.and_then(|v| v.as_str()), o) {
        (Some(u), _, _) => TsField::UInt(u),
        (None, Some(s), _) => TsField::Text(s.as_bytes().to_vec()),
        (None, None, Some(_)) => TsField::Other,
        (None, None, None) => TsField::Absent,
    }
}

/// Decode an inbound text frame into the frame model. Relies on
/// sonic_rs::from_slice and the JsonValueTrait accessors `get`, `as_u64`,
/// `as_str` and `is_null`: malformed JSON, a missing or non-string event,
/// and a present, non-null, non-string channel yield nothing (the caller
/// drops such frames silently); otherwise the frame's event and channel
/// come back as their text, and each timestamp location as an integer, a
/// string, absent, or present as something else.
#[verifier::external_body]
pub fn decode_frame(text: &Vec<u8>) -> (r: Option<InboundFrame>)
    ensures
        r == spec_decoded(text@),
{
    let v: sonic_rs::Value = sonic_rs::from_slice(text.as_slice()).ok()?;
    let event = v.get("event").and_then(|e| e.as_str())?.as_bytes().to_vec();
    let channel = channel_field(&v)?;
    let data = v.get("data");
    let root_tags_ts = ts_field(v.get("tags").and_then(|t| t.get("timestamp")));
    let data_tags_ts = ts_field(data.and_then(|d| d.get("tags")).and_then(|t| t.get("timestamp")));
    let data_ts = ts_field(data.and_then(|d| d.get("timestamp")));
    Some(InboundFrame { event, channel, root_tags_ts, data_tags_ts, data_ts })
}

/// The timestamp a candidate yields: an integer as itself, a string by
/// decimal parsing, anything else nothing.
pub open spec fn spec_ts_value(f: TsField) -> Option<u64> {
    match f {
        TsField::Absent => None,
        TsField::UInt(v) => Some(v),
        TsField::Text(s) => spec_parse_u64(s@),
        TsField::Other => None,
    }
}

/// The timestamp of a frame: the three locations are consulted in order
/// and the first that yields a value wins.
pub open spec fn spec_extract_timestamp(fr: InboundFrame) -> Option<u64> {
    if spec_ts_value(fr.root_tags_ts) is Some {
        spec_ts_value(fr.root_tags_ts)
    } else if spec_ts_value(fr.data_tags_ts) is Some {
        spec_ts_value(fr.data_tags_ts)
    } else {
        spec_ts_value(fr.data_ts)
    }
}

/// The timestamp a candidate yields, computed.
pub fn ts_value(f: &TsField) -> (r: Option<u64>)
    ensures
        r == spec_ts_value(*f),
{
    match f {
        TsField::Absent => None,
        TsField::UInt(v) => Some(*v),
        TsField::Text(s) => parse_u64_dec(s),
        TsField::Other => None,
    }
}

/// Extract the send timestamp of a delivered message. The result is a
/// function of the frame alone: extracting twice from the same frame
/// yields the same value.
pub fn extract_timestamp(fr: &InboundFrame) -> (r: Option<u64>)
    ensures
        r == spec_extract_timestamp(*fr),
{
    let root = ts_value(&fr.root_tags_ts);
    if root.is_some() {
        return root;
    }
    let data_tags = ts_value(&fr.data_tags_ts);
    if data_tags.is_some() {
        return data_tags;
    }
    ts_value(&fr.data_ts)
}

/// A timestamp sent as an unsigned integer and the same timestamp sent as
/// its decimal string yield the same value.
pub proof fn lemma_ts_encoding_agrees(s: Vec<u8>, v: u64)
    requires
        spec_parse_u64(s@) == Some(v),
    ensures
        spec_ts_value(TsField::Text(s)) == spec_ts_value(TsField::UInt(v)),
{
}

/// Two frames whose candidates yield the same values at every location
/// yield the same timestamp, whatever mix of encodings each one uses.
pub proof fn lemma_extract_encoding_independent(f1: InboundFrame, f2: InboundFrame)
    requires
        spec_ts_value(f1.root_tags_ts) == spec_ts_value(f2.root_tags_ts),
        spec_ts_value(f1.data_tags_ts) == spec_ts_value(f2.data_tags_ts),
        spec_ts_value(f1.data_ts) == spec_ts_value(f2.data_ts),
    ensures
        spec_extract_timestamp(f1) == spec_extract_timestamp(f2),
{
}

} // verus!
