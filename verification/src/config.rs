//! The typed configuration of the bridge: where the MQTT broker and the
//! Kafka cluster are, and which topics are forwarded where.

use vstd::prelude::*;
use vstd::string::StringExecFns;
use crate::text::{decimal, push_decimal};

verus! {

/// How to reach the MQTT broker, and as whom.
#[derive(Debug, Clone, PartialEq, Eq)]
pub struct MqttConfig {
    pub host: String,
    pub port: u16,
    pub client_id: String,
    pub credentials: Option<MqttCredentials>,
    pub tls: Option<MqttTlsConfig>,
}

impl MqttConfig {
    /// An empty client id asks the broker for a clean session; any other
    /// id asks it to keep the session of that client across disconnects.
    pub fn clean_session(&self) -> (clean: bool)
        ensures
            clean == (self.client_id@.len() == 0),
    {
        self.client_id.as_str().is_empty()
    }
}

/// Paths of the PEM files for a TLS connection to the broker.
#[derive(Debug, Clone, PartialEq, Eq)]
pub struct MqttTlsConfig {
    pub ca_cert: String,
    pub client_cert: Option<String>,
    pub client_key: Option<String>,
}

/// User name and password for the broker.
#[derive(Debug, Clone, PartialEq, Eq)]
pub struct MqttCredentials {
    pub username: String,
    pub password: String,
}

/// How to reach the Kafka cluster, and the producer properties that the
/// operator sets on top of the defaults. No key occurs twice in `config`.
#[derive(Debug, Clone, PartialEq, Eq)]
pub struct KafkaConfig {
    pub bootstrap_server: String,
    pub port: u16,
    pub config: Option<Vec<(String, String)>>,
}

impl KafkaConfig {
    /// Whether no key occurs twice among the producer properties.
    pub open spec fn keys_distinct(&self) -> bool {
        self.config matches Some(extra) ==> forall|i: int, j: int|
            0 <= i < j < extra@.len() ==> (#[trigger] extra@[i]).0@ != (#[trigger] extra@[j]).0@
    }

    /// What `url_string` returns: the server, a colon, the port in decimal.
    pub open spec fn url(&self) -> Seq<char> {
        self.bootstrap_server@ + seq![':'] + decimal(self.port as nat)
    }

    /// The address of the bootstrap server as `host:port`.
    pub fn url_string(&self) -> (url: String)
        ensures
            url@ == self.url(),
    {
        let mut url = self.bootstrap_server.clone();
        url.push(':');
        push_decimal(&mut url, self.port as u64);
        url
    }
}

/// One forwarding rule as the configuration file states it.
#[derive(Debug, Clone, PartialEq, Eq)]
pub struct ForwardingConfig {
    pub name: String,
    pub mqtt: MqttSource,
    pub kafka: KafkaDest,
    pub wrap_as_json: Option<bool>,
}

/// The MQTT topic filter of a rule.
#[derive(Debug, Clone, PartialEq, Eq)]
pub struct MqttSource {
    pub topic: String,
}

/// The Kafka topic of a rule.
#[derive(Debug, Clone, PartialEq, Eq)]
pub struct KafkaDest {
    pub topic: String,
}

/// The environment variable that names the configuration file.
pub const CONFIG_FILE_VAR: &'static str = "CONFIG_FILE";

/// The configuration file that is read where the environment names none.
pub const DEFAULT_CONFIG_FILE: &'static str = "config.yaml";

/// The path of the configuration file, given what the environment
/// variable `CONFIG_FILE_VAR` holds.
pub fn config_path(configured: Option<String>) -> (path: String)
    ensures
        path@ == match configured {
            Some(p) => p@,
            None => DEFAULT_CONFIG_FILE@,
        },
{
    match configured {
        Some(p) => p,
        None => DEFAULT_CONFIG_FILE.to_owned(),
    }
}

/// The whole configuration file.
#[derive(Debug, Clone, PartialEq, Eq)]
pub struct Config {
    pub mqtt: MqttConfig,
    pub kafka: KafkaConfig,
    pub forwarding: Vec<ForwardingConfig>,
}

} // verus!
