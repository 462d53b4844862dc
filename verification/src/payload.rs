//! What is written to Kafka for an inbound MQTT message: the payload as
//! it came, or a JSON object that holds the source topic and the payload
//! in base64.

use vstd::prelude::*;
use vstd::pervasive::unreached;
use vstd::slice::slice_to_vec;
use vstd::string::{StrSliceExecFns, StringExecFns};
use vstd::utf8::encode_utf8;
use base64::Engine;
use crate::topic::TopicMatch;

verus! {

/// The error of `serde_json`; nothing of it is read here.
#[verifier::external_type_specification]
#[verifier::external_body]
pub struct ExJsonError(serde_json::Error);

/// The error of a base64 decoding; nothing of it is read here.
#[verifier::external_type_specification]
#[verifier::external_body]
pub struct ExDecodeError(base64::DecodeError);

/// The base64 text of `bytes` in the standard alphabet, with padding.
pub uninterp spec fn base64_standard(bytes: Seq<u8>) -> Seq<char>;

/// The JSON string literal for `text`: `text` between double quotes, with
/// the escapes that JSON asks for.
pub uninterp spec fn json_string_literal(text: Seq<char>) -> Seq<char>;

/// The longest payload whose base64 text still has a length in `usize`.
pub open spec fn max_encodable_len() -> int {
    usize::MAX / 4 * 3
}

/// `base64::prelude::BASE64_STANDARD.encode`: the padded base64 text of
/// the bytes in the standard alphabet. The call panics where the length of
/// that text does not fit in `usize`, which the precondition rules out.
#[verifier::external_body]
fn base64_encode(bytes: &[u8]) -> (text: String)
    requires
        bytes@.len() <= max_encodable_len(),
    ensures
        text@ == base64_standard(bytes@),
{
    base64::prelude::BASE64_STANDARD.encode(bytes)
}

/// `base64::prelude::BASE64_STANDARD.decode`: text that the same engine
/// encoded decodes to the bytes it was made from. The engine asks for
/// canonical padding and takes no stray bits in the last symbol, so it
/// decodes no other text.
#[verifier::external_body]
fn base64_decode(text: &str) -> (decoded: Result<Vec<u8>, base64::DecodeError>)
    ensures
        forall|bytes: Seq<u8>|
            text@ == #[trigger] base64_standard(bytes) ==> decoded is Ok && decoded->Ok_0@
                == bytes,
        decoded matches Ok(bytes) ==> text@ == base64_standard(bytes@),
{
    base64::prelude::BASE64_STANDARD.decode(text)
}

/// `serde_json::to_string` on a string slice: the JSON string literal for
/// it. A string is neither a map nor a value that refuses to be written,
/// so the call does not fail.
#[verifier::external_body]
fn json_string(text: &str) -> (literal: Result<String, serde_json::Error>)
    ensures
        literal is Ok,
        literal matches Ok(l) ==> l@ == json_string_literal(text@),
{
    serde_json::to_string(text)
}

/// The payload of a frame is not padded base64 in the standard alphabet.
#[derive(Debug, Clone, Copy, PartialEq, Eq, Structural)]
pub struct NotBase64;

/// The JSON frame of a message: its MQTT topic and its payload in base64.
#[derive(Debug, Clone, PartialEq, Eq)]
pub struct WrappedPayload {
    pub topic: String,
    pub payload: String,
}

/// The text of the JSON object whose members `topic` and `payload` are
/// written by the literals given.
pub open spec fn json_object(topic_literal: Seq<char>, payload_literal: Seq<char>) -> Seq<char> {
    "{\"topic\":"@ + topic_literal + ",\"payload\":"@ + payload_literal + "}"@
}

/// The bytes of the JSON frame for a message on `topic` with the payload
/// `payload`.
pub open spec fn wrapped_bytes(topic: Seq<char>, payload: Seq<u8>) -> Seq<u8> {
    encode_utf8(
        json_object(json_string_literal(topic), json_string_literal(base64_standard(payload))),
    )
}

/// The UTF-8 bytes of the JSON object whose members are written by the
/// two literals.
pub fn frame_json(topic_literal: &str, payload_literal: &str) -> (bytes: Vec<u8>)
    ensures
        bytes@ == encode_utf8(json_object(topic_literal@, payload_literal@)),
{
    let mut text = String::new();
    text.append("{\"topic\":");
    text.append(topic_literal);
    text.append(",\"payload\":");
    text.append(payload_literal);
    text.append("}");
    assert(text@ == json_object(topic_literal@, payload_literal@));
    text.as_str().as_bytes_vec()
}

impl WrappedPayload {
    /// The frame for a message on `topic` with the payload `payload`.
    pub fn wrap(topic: &str, payload: &[u8]) -> (wrapped: WrappedPayload)
        requires
            payload@.len() <= max_encodable_len(),
        ensures
            wrapped.topic@ == topic@,
            wrapped.payload@ == base64_standard(payload@),
    {
        WrappedPayload { topic: topic.to_owned(), payload: base64_encode(payload) }
    }

    /// The payload bytes that this frame holds. A frame that `wrap` made
    /// gives back the payload it was made from, and only the base64 text
    /// of some bytes can be decoded.
    pub fn decode_payload(&self) -> (decoded: Result<Vec<u8>, NotBase64>)
        ensures
            forall|bytes: Seq<u8>|
                self.payload@ == #[trigger] base64_standard(bytes) ==> decoded is Ok
                    && decoded->Ok_0@ == bytes,
            decoded matches Ok(bytes) ==> self.payload@ == base64_standard(bytes@),
    {
        match base64_decode(self.payload.as_str()) {
            Ok(bytes) => Ok(bytes),
            Err(_) => Err(NotBase64),
        }
    }

    /// This frame as the bytes of a JSON object.
    pub fn to_json(&self) -> (json: Vec<u8>)
        ensures
            json@ == encode_utf8(
                json_object(json_string_literal(self.topic@), json_string_literal(self.payload@)),
            ),
    {
        let topic_literal = literal_of(self.topic.as_str());
        let payload_literal = literal_of(self.payload.as_str());
        frame_json(topic_literal.as_str(), payload_literal.as_str())
    }
}

/// The JSON string literal for `text`.
fn literal_of(text: &str) -> (literal: String)
    ensures
        literal@ == json_string_literal(text@),
{
    match json_string(text) {
        Ok(literal) => literal,
        Err(_) => unreached(),
    }
}

/// The JSON frame, as bytes, of a message on `topic` with the payload
/// `payload`.
pub fn wrap_payload(topic: &str, payload: &[u8]) -> (json: Vec<u8>)
    requires
        payload@.len() <= max_encodable_len(),
    ensures
        json@ == wrapped_bytes(topic@, payload@),
{
    WrappedPayload::wrap(topic, payload).to_json()
}

/// A message that the broker delivered and that waits to be forwarded
/// and acknowledged.
#[derive(Debug, Clone, PartialEq, Eq)]
pub struct InboundMessage {
    pub mqtt_topic: String,
    pub payload_bytes: Vec<u8>,
    pub packet_identifier: u16,
}

/// One record for Kafka.
#[derive(Debug, Clone, PartialEq, Eq)]
pub struct KafkaRecord {
    pub topic: String,
    pub key: String,
    pub payload: Vec<u8>,
}

/// What a record holds.
pub struct RecordView {
    pub topic: Seq<char>,
    pub key: Seq<char>,
    pub payload: Seq<u8>,
}

impl View for KafkaRecord {
    type V = RecordView;

    open spec fn view(&self) -> RecordView {
        RecordView { topic: self.topic@, key: self.key@, payload: self.payload@ }
    }
}

/// The record that `rule` asks for, for a message on `mqtt_topic` whose
/// payload is `raw` and whose JSON frame is `wrapped`. Its key is the MQTT
/// topic, so that the messages of one source topic share a partition.
pub open spec fn record_for(
    mqtt_topic: Seq<char>,
    raw: Seq<u8>,
    wrapped: Seq<u8>,
    rule: TopicMatch,
) -> RecordView {
    RecordView {
        topic: rule.kafka_topic@,
        key: mqtt_topic,
        payload: if rule.wrap_as_json {
            wrapped
        } else {
            raw
        },
    }
}

/// The records that `rules` ask for, one for each rule and in their order.
pub open spec fn records_for(
    mqtt_topic: Seq<char>,
    raw: Seq<u8>,
    wrapped: Seq<u8>,
    rules: Seq<TopicMatch>,
) -> Seq<RecordView> {
    rules.map_values(|rule: TopicMatch| record_for(mqtt_topic, raw, wrapped, rule))
}

/// The views of `records`.
pub open spec fn record_views(records: Seq<KafkaRecord>) -> Seq<RecordView> {
    records.map_values(|record: KafkaRecord| record@)
}

/// The records to produce for `message` under the rules `rules`, given
/// the JSON frame `wrapped` of the message.
pub fn plan_records(message: &InboundMessage, wrapped: &[u8], rules: &[TopicMatch]) -> (records:
    Vec<KafkaRecord>)
    ensures
        record_views(records@) == records_for(
            message.mqtt_topic@,
            message.payload_bytes@,
            wrapped@,
            rules@,
        ),
{
    let mut records: Vec<KafkaRecord> = Vec::new();
    let mut i: usize = 0;
    while i < rules.len()
        invariant
            i <= rules.len(),
            record_views(records@) == records_for(
                message.mqtt_topic@,
                message.payload_bytes@,
                wrapped@,
                rules@.take(i as int),
            ),
        decreases rules.len() - i,
    {
        let rule = &rules[i];
        let payload = if rule.wrap_as_json {
            slice_to_vec(wrapped)
        } else {
            slice_to_vec(message.payload_bytes.as_slice())
        };
        let ghost before = records@;
        let record = KafkaRecord {
            topic: rule.kafka_topic.clone(),
            key: message.mqtt_topic.clone(),
            payload,
        };
        records.push(record);
        proof {
            assert(rules@.take(i + 1) == rules@.take(i as int).push(rules@[i as int]));
            assert(record_views(records@) == record_views(before).push(record@));
        }
        i += 1;
    }
    assert(rules@.take(rules.len() as int) == rules@);
    records
}

/// The records to produce for `message` under the rules `rules`. The JSON
/// frame is made once, whether or not a rule asks for it.
pub fn forwarding_records(message: &InboundMessage, rules: &[TopicMatch]) -> (records: Vec<
    KafkaRecord,
>)
    requires
        message.payload_bytes@.len() <= max_encodable_len(),
    ensures
        record_views(records@) == records_for(
            message.mqtt_topic@,
            message.payload_bytes@,
            wrapped_bytes(message.mqtt_topic@, message.payload_bytes@),
            rules@,
        ),
{
    let wrapped = wrap_payload(message.mqtt_topic.as_str(), message.payload_bytes.as_slice());
    plan_records(message, wrapped.as_slice(), rules)
}

} // verus!
