[package]
name = "stream_operator"
version = "0.1.0"
edition = "2021"
publish = false

[dependencies]
base64 = "0.21.7"
fake = { version = "2.10", features = ["derive"] }
serde = { version = "1", features = ["derive"] }
serde_json = "1"
clap = { version = "4", features = ["derive"] }
tokio = { version = "1", features = ["macros", "rt-multi-thread"] }
futures = "0.3"
rdkafka = "0.36"
async-nats = "0.33"
lapin = { version = "2", default-features = false }
tokio-executor-trait = "2"
tokio-reactor-trait = "1"
pulsar = { version = "6", default-features = false, features = ["tokio-runtime"] }
