use mqtt_kafka_forwarding_service::config::KafkaConfig;
use mqtt_kafka_forwarding_service::kafka::{
    client_config, BOOTSTRAP_SERVERS, MAX_IN_FLIGHT_REQUESTS, MESSAGE_TIMEOUT_MS,
    METADATA_TIMEOUT_SECS, PRODUCE_TIMEOUT_SECS,
};

fn kafka_with(extra: Option<Vec<(&str, &str)>>) -> KafkaConfig {
    KafkaConfig {
        bootstrap_server: "kafka-0".to_string(),
        port: 9092,
        config: extra
            .map(|pairs| pairs.into_iter().map(|(k, v)| (k.to_string(), v.to_string())).collect()),
    }
}

#[test]
fn defaults_are_set_without_operator_properties() {
    let client = client_config(&kafka_with(None));
    assert_eq!(client.get("bootstrap.servers"), Some("kafka-0:9092"));
    assert_eq!(client.get("message.timeout.ms"), Some("12000"));
    assert_eq!(client.get("max.in.flight.requests.per.connection"), Some("500"));
    assert_eq!(client.config_map().len(), 3);
}

#[test]
fn empty_operator_properties_leave_the_defaults() {
    let client = client_config(&kafka_with(Some(vec![])));
    assert_eq!(client.get(BOOTSTRAP_SERVERS), Some("kafka-0:9092"));
    assert_eq!(client.get(MESSAGE_TIMEOUT_MS), Some("12000"));
    assert_eq!(client.get(MAX_IN_FLIGHT_REQUESTS), Some("500"));
    assert_eq!(client.config_map().len(), 3);
}

#[test]
fn operator_properties_override_the_defaults() {
    let client = client_config(&kafka_with(Some(vec![
        ("message.timeout.ms", "3000"),
        ("compression.type", "lz4"),
        ("bootstrap.servers", "other:1"),
    ])));
    assert_eq!(client.get("bootstrap.servers"), Some("other:1"));
    assert_eq!(client.get("message.timeout.ms"), Some("3000"));
    assert_eq!(client.get("max.in.flight.requests.per.connection"), Some("500"));
    assert_eq!(client.get("compression.type"), Some("lz4"));
    assert_eq!(client.get("acks"), None);
    assert_eq!(client.config_map().len(), 4);
}

#[test]
fn later_operator_property_wins() {
    let client =
        client_config(&kafka_with(Some(vec![("acks", "1"), ("linger.ms", "5"), ("acks", "all")])));
    assert_eq!(client.get("acks"), Some("all"));
    assert_eq!(client.get("linger.ms"), Some("5"));
    assert_eq!(client.config_map().len(), 5);
}

#[test]
fn timeouts_of_the_producer() {
    assert_eq!(METADATA_TIMEOUT_SECS, 5);
    assert_eq!(PRODUCE_TIMEOUT_SECS, 1);
}
