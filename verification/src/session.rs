//! How the MQTT session is set up: its options, the TLS files it reads,
//! and what it subscribes to.

use vstd::prelude::*;
use rumqttc::{QoS, SubscribeFilter};
use crate::config::{MqttConfig, MqttCredentials, MqttTlsConfig};
use crate::topic::TopicMatch;

verus! {

/// The quality of service of a subscription or a publish.
#[verifier::external_type_specification]
pub struct ExQoS(QoS);

/// A topic filter with the quality of service asked for it.
#[verifier::external_type_specification]
pub struct ExSubscribeFilter(SubscribeFilter);

/// The subscription for the rule `rule`: its filter, at the highest
/// quality of service. The broker may grant less.
pub open spec fn subscription_for(rule: TopicMatch) -> SubscribeFilter {
    SubscribeFilter { path: rule.mqtt_topic, qos: QoS::ExactlyOnce }
}

/// The subscriptions for `rules`, one for each rule and in their order,
/// to be sent to the broker in one request.
pub fn subscriptions(rules: &[TopicMatch]) -> (filters: Vec<SubscribeFilter>)
    ensures
        filters@ == rules@.map_values(|rule: TopicMatch| subscription_for(rule)),
{
    let mut filters: Vec<SubscribeFilter> = Vec::new();
    let mut i: usize = 0;
    while i < rules.len()
        invariant
            i <= rules.len(),
            filters@ == rules@.take(i as int).map_values(
                |rule: TopicMatch| subscription_for(rule),
            ),
        decreases rules.len() - i,
    {
        filters.push(SubscribeFilter { path: rules[i].mqtt_topic.clone(), qos: QoS::ExactlyOnce });
        assert(rules@.take(i + 1) == rules@.take(i as int).push(rules@[i as int]));
        i += 1;
    }
    assert(rules@.take(rules.len() as int) == rules@);
    filters
}

/// How many messages may wait for their acknowledgement at a time.
pub const MAX_IN_FLIGHT: u16 = 10;

/// The PEM files of a TLS connection. The client authenticates itself
/// only where both its certificate and its key are configured.
#[derive(Debug, Clone, PartialEq, Eq)]
pub struct TlsFiles {
    /// The CA certificate, which is always read.
    pub ca_cert: String,
    /// The client certificate and the client key.
    pub client_auth: Option<(String, String)>,
}

impl TlsFiles {
    /// The files that `config` asks for.
    pub open spec fn of_config(config: MqttTlsConfig) -> TlsFiles {
        TlsFiles {
            ca_cert: config.ca_cert,
            client_auth: match (config.client_cert, config.client_key) {
                (Some(cert), Some(key)) => Some((cert, key)),
                _ => None,
            },
        }
    }

    /// The files that `config` asks for.
    pub fn from_config(config: &MqttTlsConfig) -> (files: TlsFiles)
        ensures
            files == TlsFiles::of_config(*config),
    {
        let client_auth = match (&config.client_cert, &config.client_key) {
            (Some(cert), Some(key)) => Some((cert.clone(), key.clone())),
            _ => None,
        };
        TlsFiles { ca_cert: config.ca_cert.clone(), client_auth }
    }
}

/// The options of the MQTT session.
#[derive(Debug, Clone, PartialEq, Eq)]
pub struct SessionOptions {
    pub client_id: String,
    pub host: String,
    pub port: u16,
    /// Whether the broker is to forget the session on disconnect.
    pub clean_session: bool,
    /// How many messages may wait for their acknowledgement at a time.
    pub inflight: u16,
    /// Whether messages are acknowledged by the bridge itself, rather
    /// than by the client library on receipt.
    pub manual_acks: bool,
    pub tls: Option<TlsFiles>,
    pub credentials: Option<MqttCredentials>,
}

impl SessionOptions {
    /// The options that `config` asks for. Acknowledgements are always
    /// manual, so that a message is acknowledged only once Kafka has it.
    pub open spec fn of_config(config: MqttConfig) -> SessionOptions {
        SessionOptions {
            client_id: config.client_id,
            host: config.host,
            port: config.port,
            clean_session: config.client_id@.len() == 0,
            inflight: MAX_IN_FLIGHT,
            manual_acks: true,
            tls: match config.tls {
                Some(tls) => Some(TlsFiles::of_config(tls)),
                None => None,
            },
            credentials: config.credentials,
        }
    }

    /// The options that `config` asks for.
    pub fn from_config(config: &MqttConfig) -> (options: SessionOptions)
        ensures
            options == SessionOptions::of_config(*config),
    {
        let tls = match &config.tls {
            Some(tls) => Some(TlsFiles::from_config(tls)),
            None => None,
        };
        let credentials = match &config.credentials {
            Some(c) => Some(
                MqttCredentials { username: c.username.clone(), password: c.password.clone() },
            ),
            None => None,
        };
        SessionOptions {
            client_id: config.client_id.clone(),
            host: config.host.clone(),
            port: config.port,
            clean_session: config.clean_session(),
            inflight: MAX_IN_FLIGHT,
            manual_acks: true,
            tls,
            credentials,
        }
    }
}

} // verus!
