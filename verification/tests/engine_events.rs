use mqtt_kafka_forwarding_service::config::{ForwardingConfig, KafkaDest, MqttSource};
use mqtt_kafka_forwarding_service::engine::{
    Admission, ConnectionState, EngineAction, ForwardingEngine, PollOutcome, SessionEvent,
    BACKPRESSURE_SLEEP_MILLIS, IDLE_POLL_SECS, MAX_KAFKA_IN_FLIGHT, RECONNECT_BACKOFF_SECS,
};
use mqtt_kafka_forwarding_service::payload::InboundMessage;
use mqtt_kafka_forwarding_service::stats::{Stats, StatsReport, StatsReporter};
use mqtt_kafka_forwarding_service::topic::TopicMatch;

fn forwarding(name: &str, filter: &str, kafka: &str, wrap: Option<bool>) -> ForwardingConfig {
    ForwardingConfig {
        name: name.to_string(),
        mqtt: MqttSource { topic: filter.to_string() },
        kafka: KafkaDest { topic: kafka.to_string() },
        wrap_as_json: wrap,
    }
}

fn publish(topic: &str, payload: &[u8], packet_identifier: u16) -> InboundMessage {
    InboundMessage {
        mqtt_topic: topic.to_string(),
        payload_bytes: payload.to_vec(),
        packet_identifier,
    }
}

fn engine_rule(filter: &str, kafka: &str, wrap: bool) -> TopicMatch {
    TopicMatch {
        mqtt_topic: filter.to_string(),
        kafka_topic: kafka.to_string(),
        wrap_as_json: wrap,
    }
}

#[test]
fn new_engine_is_connected_and_has_counted_nothing() {
    let engine = ForwardingEngine::new(&[
        forwarding("one", "a/#", "K1", None),
        forwarding("two", "a/b", "K2", Some(true)),
        forwarding("three", "c", "K3", Some(false)),
    ]);
    assert_eq!(engine.connection(), ConnectionState::Connected);
    assert_eq!(engine.stats(), Stats::new());
    assert_eq!(
        engine.rules(),
        &vec![
            engine_rule("a/#", "K1", false),
            engine_rule("a/b", "K2", true),
            engine_rule("c", "K3", false)
        ]
    );
    let text = engine.metrics_text();
    assert!(text.contains("forwarding_mqtt_connected 1\n"));
    assert!(!text.contains("forwarding_mqtt_received_total"));
}

#[test]
fn publish_is_counted_and_forwarded_under_the_matching_rules() {
    let mut engine = ForwardingEngine::new(&[
        forwarding("one", "a/#", "K1", None),
        forwarding("two", "b/#", "K0", None),
        forwarding("three", "a/b", "K2", Some(true)),
    ]);
    let action =
        engine.handle_poll(PollOutcome::Event(SessionEvent::Publish(publish("a/b", b"hello", 3))));
    assert_eq!(
        action,
        EngineAction::Forward {
            message: publish("a/b", b"hello", 3),
            rules: vec![engine_rule("a/#", "K1", false), engine_rule("a/b", "K2", true)],
        }
    );
    assert_eq!(engine.stats().received_total, 1);
    assert_eq!(engine.stats().published_total, 0);
    assert!(engine.metrics_text().contains("forwarding_mqtt_received_total{topic=\"a/b\"} 1\n"));
}

#[test]
fn publish_without_matching_rule_is_still_forwarded_for_acknowledgement() {
    let mut engine = ForwardingEngine::new(&[forwarding("one", "a/#", "K1", None)]);
    let action = engine.handle_event(SessionEvent::Publish(publish("z", b"x", 9)));
    assert_eq!(action, EngineAction::Forward { message: publish("z", b"x", 9), rules: vec![] });
    assert_eq!(engine.stats().received_total, 1);
    assert!(engine.metrics_text().contains("forwarding_mqtt_received_total{topic=\"z\"} 1\n"));
}

#[test]
fn received_counter_equals_the_number_of_publishes_per_topic() {
    let mut engine = ForwardingEngine::new(&[forwarding("one", "#", "K", None)]);
    for topic in ["t/1", "t/2", "t/1", "t/1", "t/3", "t/2"] {
        engine.handle_publish(publish(topic, b"", 1));
        engine.handle_poll(PollOutcome::Idle);
        engine.handle_event(SessionEvent::SubAck);
    }
    let text = engine.metrics_text();
    assert!(text.contains("forwarding_mqtt_received_total{topic=\"t/1\"} 3\n"));
    assert!(text.contains("forwarding_mqtt_received_total{topic=\"t/2\"} 2\n"));
    assert!(text.contains("forwarding_mqtt_received_total{topic=\"t/3\"} 1\n"));
    assert_eq!(engine.stats().received_total, 6);
}

#[test]
fn connection_follows_connack_disconnect_and_transport_errors() {
    let mut engine = ForwardingEngine::new(&[]);
    assert_eq!(
        engine.handle_poll(PollOutcome::TransportError),
        EngineAction::ConnectionLost { was_connected: true }
    );
    assert_eq!(engine.connection(), ConnectionState::Disconnected);
    assert!(engine.metrics_text().contains("forwarding_mqtt_connected 0\n"));
    assert_eq!(
        engine.handle_poll(PollOutcome::TransportError),
        EngineAction::ConnectionLost { was_connected: false }
    );
    assert_eq!(
        engine.handle_poll(PollOutcome::Event(SessionEvent::ConnAck)),
        EngineAction::Reconnected
    );
    assert_eq!(engine.connection(), ConnectionState::Connected);
    assert!(engine.metrics_text().contains("forwarding_mqtt_connected 1\n"));
    assert_eq!(
        engine.handle_poll(PollOutcome::Event(SessionEvent::Disconnect)),
        EngineAction::Disconnected
    );
    assert_eq!(engine.connection(), ConnectionState::Disconnected);
    assert!(engine.metrics_text().contains("forwarding_mqtt_connected 0\n"));
    assert_eq!(RECONNECT_BACKOFF_SECS, 1);
}

#[test]
fn other_events_change_nothing() {
    let mut engine = ForwardingEngine::new(&[forwarding("one", "a", "K", None)]);
    assert_eq!(engine.handle_poll(PollOutcome::Idle), EngineAction::Nothing);
    assert_eq!(
        engine.handle_poll(PollOutcome::Event(SessionEvent::Other)),
        EngineAction::Nothing
    );
    assert_eq!(
        engine.handle_poll(PollOutcome::Event(SessionEvent::SubAck)),
        EngineAction::Subscribed
    );
    assert_eq!(engine.connection(), ConnectionState::Connected);
    assert_eq!(engine.stats(), Stats::new());
    assert_eq!(IDLE_POLL_SECS, 2);
    engine.handle_poll(PollOutcome::TransportError);
    assert_eq!(engine.handle_poll(PollOutcome::Idle), EngineAction::Nothing);
    assert_eq!(engine.handle_event(SessionEvent::SubAck), EngineAction::Subscribed);
    assert_eq!(engine.connection(), ConnectionState::Disconnected);
}

#[test]
fn gauge_value_is_one_or_zero() {
    assert_eq!(ConnectionState::Connected.gauge_value(), 1);
    assert_eq!(ConnectionState::Disconnected.gauge_value(), 0);
}

#[test]
fn message_is_admitted_below_a_thousand_in_flight() {
    let mut engine = ForwardingEngine::new(&[]);
    assert_eq!(MAX_KAFKA_IN_FLIGHT, 1000);
    assert_eq!(BACKPRESSURE_SLEEP_MILLIS, 10);
    assert_eq!(engine.ask_admission(1000), Admission::Wait);
    assert_eq!(engine.ask_admission(1001), Admission::Wait);
    assert_eq!(engine.ask_admission(i32::MAX), Admission::Wait);
    assert_eq!(engine.stats().in_flight_snapshot, 0);
    assert_eq!(engine.ask_admission(999), Admission::Admit);
    assert_eq!(engine.stats().in_flight_snapshot, 999);
    assert_eq!(engine.ask_admission(0), Admission::Admit);
    assert_eq!(engine.stats().in_flight_snapshot, 0);
    assert_eq!(engine.ask_admission(-1), Admission::Admit);
    assert_eq!(engine.stats().in_flight_snapshot, -1);
}

#[test]
fn full_producer_delays_dispatch_until_it_has_room() {
    let mut engine = ForwardingEngine::new(&[forwarding("one", "s/+", "K", None)]);
    engine.handle_publish(publish("s/a", &[1, 2], 1));
    let readings = [1500, 1500, 1400, 1200, 1000, 999];
    let mut sleeps = 0;
    let mut admitted_at = None;
    for reading in readings {
        match engine.ask_admission(reading) {
            Admission::Wait => sleeps += 1,
            Admission::Admit => {
                admitted_at = Some(reading);
                break;
            }
        }
    }
    assert_eq!(sleeps, 5);
    assert!(sleeps as u64 * BACKPRESSURE_SLEEP_MILLIS >= 40);
    assert_eq!(admitted_at, Some(999));
    assert_eq!(engine.stats().in_flight_snapshot, 999);
}

#[test]
fn count_published_counts_by_kafka_topic() {
    let mut engine = ForwardingEngine::new(&[]);
    engine.count_published("K");
    engine.count_published("K2");
    engine.count_published("K");
    assert_eq!(engine.stats().published_total, 3);
    assert_eq!(engine.stats().received_total, 0);
    let text = engine.metrics_text();
    assert!(text.contains("forwarding_kafka_published_total{topic=\"K\"} 2\n"));
    assert!(text.contains("forwarding_kafka_published_total{topic=\"K2\"} 1\n"));
}

#[test]
fn reporter_resets_the_totals_but_not_the_exported_counters() {
    let mut engine = ForwardingEngine::new(&[forwarding("one", "#", "K", None)]);
    let mut reporter = StatsReporter::new();
    assert_eq!(engine.report_stats(&mut reporter), None);
    engine.handle_publish(publish("a", b"", 1));
    engine.handle_publish(publish("a", b"", 2));
    engine.count_published("K");
    engine.ask_admission(17);
    assert_eq!(
        engine.report_stats(&mut reporter),
        Some(StatsReport { received: 2, published: 1, rate: 1, in_flight: 17, reset: false })
    );
    assert_eq!(
        engine.report_stats(&mut reporter),
        Some(StatsReport { received: 2, published: 1, rate: 0, in_flight: 17, reset: true })
    );
    assert_eq!(
        engine.stats(),
        Stats { received_total: 0, published_total: 0, in_flight_snapshot: 17 }
    );
    assert_eq!(engine.report_stats(&mut reporter), None);
    let text = engine.metrics_text();
    assert!(text.contains("forwarding_mqtt_received_total{topic=\"a\"} 2\n"));
    assert!(text.contains("forwarding_kafka_published_total{topic=\"K\"} 1\n"));
}

#[test]
fn metrics_text_of_an_engine_is_a_complete_exposition() {
    let mut engine = ForwardingEngine::new(&[forwarding("one", "#", "K", None)]);
    engine.handle_publish(publish("a", b"", 1));
    engine.count_published("K");
    engine.handle_poll(PollOutcome::TransportError);
    let text = engine.metrics_text();
    assert_eq!(
        text,
        "# HELP forwarding_mqtt_received Number of messages received from mqtt.\n\
# TYPE forwarding_mqtt_received counter\n\
forwarding_mqtt_received_total{topic=\"a\"} 1\n\
# HELP forwarding_kafka_published Number of messages published to kafka.\n\
# TYPE forwarding_kafka_published counter\n\
forwarding_kafka_published_total{topic=\"K\"} 1\n\
# HELP forwarding_mqtt_connected Is the connection to the MQTT broker active.\n\
# TYPE forwarding_mqtt_connected gauge\n\
forwarding_mqtt_connected 0\n\
# EOF\n"
    );
}
