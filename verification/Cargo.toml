[package]
name = "axum_strangler"
version = "0.3.1"
edition = "2021"
publish = false

[dependencies]
axum = "0.6"
axum-core = "0.3"
base64 = "0.13"
futures-util = { version = "0.3", default-features = false, features = ["sink", "std"] }
http = "0.2"
hyper = { version = "0.14", features = ["client", "http1", "tcp", "runtime"] }
hyper-tls = "0.5"
opentelemetry = "0.18"
sha1 = "0.10"
tokio = { version = "1", features = ["macros", "net", "rt", "sync"] }
tokio-tungstenite = { version = "0.17", features = ["native-tls"] }
tower-service = "0.3"
tracing = "0.1"
tracing-opentelemetry = "0.18"
