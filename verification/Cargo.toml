[package]
name = "emulated_client"
version = "0.1.0"
edition = "2021"
publish = false

[dependencies]
chrono = "0.4"
clap = "4"
config = { version = "0.14", default-features = false, features = ["toml"] }
cpu-time = "1"
futures = "0.3"
jemallocator = "0.5"
openmls_traits = "0.3"
rand = "0.8"
rumqttc = { version = "0.24", default-features = false }
serde = { version = "1", features = ["derive"] }
tls_codec = { version = "0.4", features = ["std"] }
tokio = { version = "1", features = ["rt", "rt-multi-thread", "sync", "time", "macros"] }
tracing = "0.1"
tracing-subscriber = "0.3"
url = "2"
