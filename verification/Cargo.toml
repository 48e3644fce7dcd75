[package]
name = "plan_visualizer"
version = "0.1.0"
edition = "2021"
publish = false

[dependencies]
aes-gcm = "=0.10.3"
chrono = "=0.4.45"
data-encoding = "=2.11.1"
keyring = "=2.3.3"
rand = "=0.8.8"
serde_json = "=1.0.151"
directories = "=5.0.1"
native-tls = "=0.2.18"
postgres-native-tls = "=0.5.3"
tokio = { version = "=1.53.2", features = ["rt", "rt-multi-thread", "macros"] }
tokio-postgres = { version = "=0.7.18", features = ["with-serde_json-1"] }
