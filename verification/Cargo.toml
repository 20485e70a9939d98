[package]
name = "cranker_connector"
version = "0.1.0"
edition = "2021"
publish = false

[dependencies]
http = "0.2"
hyper = { version = "0.14", features = ["full"] }
tokio = { version = "1", features = ["full"] }
async-tungstenite = { version = "0.17", features = ["async-std-runtime", "async-native-tls"] }
async-native-tls = "0.4"
futures = "0.3"
bytes = "1"
dashmap = "5"
uuid = { version = "1", features = ["v4"] }
