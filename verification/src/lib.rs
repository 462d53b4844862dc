//! A bridge from MQTT to Kafka: messages that arrive on the MQTT topics
//! of the configured rules are written to the Kafka topics of those rules,
//! and an MQTT message is acknowledged only once Kafka has confirmed every
//! record made from it.
//!
//! This library holds what the bridge decides and computes: which rules
//! match a topic, what is written to Kafka, when a message may be
//! dispatched and when it is acknowledged, what the metrics show, and how
//! the configuration text is rendered. The program around it does the
//! waiting and the talking to the two brokers.

pub mod benchmark;
pub mod bindings;
pub mod config;
pub mod delivery;
pub mod engine;
pub mod kafka;
pub mod metrics;
pub mod payload;
pub mod session;
pub mod stats;
pub mod template;
pub mod text;
pub mod topic;
