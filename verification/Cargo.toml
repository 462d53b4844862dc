[package]
name = "mqtt-kafka-forwarding-service"
version = "0.1.0"
edition = "2021"
publish = false

[dependencies]
argh = "0.1"
axum = "0.7"
base64 = "0.22"
ctrlc = "3"
env_logger = "0.11"
lazy_static = "1"
log = "0.4"
prometheus-client = "0.22"
rdkafka = "0.36"
rumqttc = "0.23"
serde = { version = "1", features = ["derive"] }
serde_json = "1"
serde_yaml = "0.9"
simple_logger = "4"
tokio = { version = "1", features = ["full"] }
