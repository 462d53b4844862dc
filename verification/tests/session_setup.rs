use mqtt_kafka_forwarding_service::config::{MqttConfig, MqttCredentials, MqttTlsConfig};
use mqtt_kafka_forwarding_service::session::{
    subscriptions, SessionOptions, TlsFiles, MAX_IN_FLIGHT,
};
use mqtt_kafka_forwarding_service::topic::TopicMatch;
use rumqttc::{QoS, SubscribeFilter};

fn session_rule(filter: &str) -> TopicMatch {
    TopicMatch { mqtt_topic: filter.to_string(), kafka_topic: "K".to_string(), wrap_as_json: false }
}

fn tls_config(cert: Option<&str>, key: Option<&str>) -> MqttTlsConfig {
    MqttTlsConfig {
        ca_cert: "/certs/ca.pem".to_string(),
        client_cert: cert.map(|c| c.to_string()),
        client_key: key.map(|k| k.to_string()),
    }
}

#[test]
fn one_subscription_for_each_rule_at_exactly_once() {
    let filters = subscriptions(&[session_rule("a/#"), session_rule("b/+/c"), session_rule("a/#")]);
    assert!(
        filters
            == vec![
                SubscribeFilter::new("a/#".to_string(), QoS::ExactlyOnce),
                SubscribeFilter::new("b/+/c".to_string(), QoS::ExactlyOnce),
                SubscribeFilter::new("a/#".to_string(), QoS::ExactlyOnce),
            ]
    );
}

#[test]
fn no_rules_no_subscriptions() {
    assert!(subscriptions(&[]).is_empty());
}

#[test]
fn client_authenticates_only_with_certificate_and_key() {
    assert_eq!(
        TlsFiles::from_config(&tls_config(Some("/certs/client.pem"), Some("/certs/client.key"))),
        TlsFiles {
            ca_cert: "/certs/ca.pem".to_string(),
            client_auth: Some(("/certs/client.pem".to_string(), "/certs/client.key".to_string())),
        }
    );
    let ca_only = TlsFiles { ca_cert: "/certs/ca.pem".to_string(), client_auth: None };
    assert_eq!(TlsFiles::from_config(&tls_config(None, None)), ca_only);
    assert_eq!(TlsFiles::from_config(&tls_config(Some("/certs/client.pem"), None)), ca_only);
    assert_eq!(TlsFiles::from_config(&tls_config(None, Some("/certs/client.key"))), ca_only);
}

#[test]
fn options_of_a_persistent_session_with_tls_and_credentials() {
    let config = MqttConfig {
        host: "mqtt.example.net".to_string(),
        port: 8883,
        client_id: "bridge".to_string(),
        credentials: Some(MqttCredentials {
            username: "user".to_string(),
            password: "secret".to_string(),
        }),
        tls: Some(tls_config(Some("c"), Some("k"))),
    };
    assert_eq!(
        SessionOptions::from_config(&config),
        SessionOptions {
            client_id: "bridge".to_string(),
            host: "mqtt.example.net".to_string(),
            port: 8883,
            clean_session: false,
            inflight: 10,
            manual_acks: true,
            tls: Some(TlsFiles {
                ca_cert: "/certs/ca.pem".to_string(),
                client_auth: Some(("c".to_string(), "k".to_string())),
            }),
            credentials: Some(MqttCredentials {
                username: "user".to_string(),
                password: "secret".to_string(),
            }),
        }
    );
}

#[test]
fn options_of_a_clean_session_without_tls() {
    let config = MqttConfig {
        host: "localhost".to_string(),
        port: 1883,
        client_id: String::new(),
        credentials: None,
        tls: None,
    };
    let options = SessionOptions::from_config(&config);
    assert!(options.clean_session);
    assert!(options.manual_acks);
    assert_eq!(options.inflight, MAX_IN_FLIGHT);
    assert_eq!(options.tls, None);
    assert_eq!(options.credentials, None);
    assert_eq!(options.client_id, "");
    assert_eq!(MAX_IN_FLIGHT, 10);
}
