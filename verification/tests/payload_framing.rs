use mqtt_kafka_forwarding_service::payload::{
    forwarding_records, frame_json, plan_records, wrap_payload, InboundMessage, KafkaRecord,
    NotBase64, WrappedPayload,
};
use mqtt_kafka_forwarding_service::topic::TopicMatch;

fn framing_message(topic: &str, payload: &[u8]) -> InboundMessage {
    InboundMessage {
        mqtt_topic: topic.to_string(),
        payload_bytes: payload.to_vec(),
        packet_identifier: 7,
    }
}

fn framing_rule(filter: &str, kafka: &str, wrap: bool) -> TopicMatch {
    TopicMatch {
        mqtt_topic: filter.to_string(),
        kafka_topic: kafka.to_string(),
        wrap_as_json: wrap,
    }
}

#[test]
fn wrap_holds_topic_and_base64_payload() {
    let wrapped = WrappedPayload::wrap("a/b", b"hello");
    assert_eq!(wrapped.topic, "a/b");
    assert_eq!(wrapped.payload, "aGVsbG8=");
}

#[test]
fn wrap_pads_to_a_multiple_of_four() {
    assert_eq!(WrappedPayload::wrap("t", b"").payload, "");
    assert_eq!(WrappedPayload::wrap("t", b"f").payload, "Zg==");
    assert_eq!(WrappedPayload::wrap("t", b"fo").payload, "Zm8=");
    assert_eq!(WrappedPayload::wrap("t", b"foo").payload, "Zm9v");
    assert_eq!(WrappedPayload::wrap("t", &[0xfb, 0xff]).payload, "+/8=");
}

#[test]
fn decode_gives_back_what_wrap_took() {
    let payloads: [&[u8]; 5] = [b"", b"\x00", b"hello", &[0xff, 0xfe, 0x00, 0x01], b"{\"id\":1}"];
    for payload in payloads {
        let wrapped = WrappedPayload::wrap("s/a", payload);
        assert_eq!(wrapped.decode_payload(), Ok(payload.to_vec()));
        assert_eq!(wrapped.topic, "s/a");
    }
}

#[test]
fn decode_rejects_text_that_is_not_base64() {
    let frame = WrappedPayload { topic: "t".to_string(), payload: "not base64!".to_string() };
    assert_eq!(frame.decode_payload(), Err(NotBase64));
    let unpadded = WrappedPayload { topic: "t".to_string(), payload: "Zg".to_string() };
    assert_eq!(unpadded.decode_payload(), Err(NotBase64));
}

#[test]
fn wrap_payload_writes_the_json_object() {
    assert_eq!(
        wrap_payload("a/b", b"hello"),
        b"{\"topic\":\"a/b\",\"payload\":\"aGVsbG8=\"}".to_vec()
    );
}

#[test]
fn wrap_payload_escapes_the_topic() {
    assert_eq!(
        wrap_payload("a\"b\\c\n", b""),
        b"{\"topic\":\"a\\\"b\\\\c\\n\",\"payload\":\"\"}".to_vec()
    );
}

#[test]
fn wrapped_json_parses_back() {
    let bytes = wrap_payload("caf\u{e9}/\u{1f600}", &[1, 2, 3]);
    let value: serde_json::Value = serde_json::from_slice(&bytes).unwrap();
    assert_eq!(value.get("topic").and_then(|t| t.as_str()), Some("caf\u{e9}/\u{1f600}"));
    assert_eq!(value.get("payload").and_then(|p| p.as_str()), Some("AQID"));
    assert_eq!(value.as_object().map(|o| o.len()), Some(2));
}

#[test]
fn frame_json_joins_the_literals() {
    assert_eq!(frame_json("\"t\"", "\"p\""), b"{\"topic\":\"t\",\"payload\":\"p\"}".to_vec());
    assert_eq!(frame_json("", ""), b"{\"topic\":,\"payload\":}".to_vec());
}

#[test]
fn plan_records_uses_raw_or_wrapped_payload_per_rule() {
    let msg = framing_message("a/b", b"hello");
    let rules = vec![framing_rule("a/#", "K1", false), framing_rule("a/b", "K2", true)];
    let records = plan_records(&msg, b"WRAPPED", &rules);
    assert_eq!(
        records,
        vec![
            KafkaRecord {
                topic: "K1".to_string(),
                key: "a/b".to_string(),
                payload: b"hello".to_vec()
            },
            KafkaRecord {
                topic: "K2".to_string(),
                key: "a/b".to_string(),
                payload: b"WRAPPED".to_vec()
            },
        ]
    );
}

#[test]
fn forwarding_records_for_no_rule_is_empty() {
    let msg = framing_message("a/b", b"hello");
    assert_eq!(forwarding_records(&msg, &[]), vec![]);
}
