[package]
name = "thor"
version = "0.1.0"
edition = "2021"
publish = false

[dependencies]
anyhow = "=1.0.104"
chrono = "=0.4.45"
clap = { version = "=3.2.25", features = ["derive", "cargo"] }
config = "=0.13.4"
futures = "=0.3.34"
mqtt-protocol = "=0.11.2"
openssl = "=0.10.82"
reqwest = { version = "=0.11.27", features = ["json"] }
serde = { version = "=1.0.229", features = ["derive"] }
serde_derive = "=1.0.229"
serde_json = "=1.0.154"
signal-hook = { version = "=0.3.18", features = ["extended-siginfo"] }
tokio = { version = "=1.54.1", features = ["full"] }
tokio-openssl = "=0.6.5"
toml = "=0.5.11"
tracing = "=0.1.44"
tracing-subscriber = "=0.3.23"
