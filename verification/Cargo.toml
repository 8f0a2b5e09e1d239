[package]
name = "goose"
version = "0.1.0"
edition = "2021"
publish = false

[dependencies]
agent-client-protocol = { version = "=5.0.0", features = ["unstable_session_fork"] }
chrono = "=0.4.45"
tracing = "=0.1.44"

[dev-dependencies]
serde_json = "=1.0.154"
