[package]
name = "weather_signal"
version = "0.1.0"
edition = "2021"
publish = false

[dependencies]
anyhow = "1"
axum = "0.8"
chrono = "0.4"
clap = { version = "4", features = ["derive", "env"] }
clap_complete = "4"
comfy-table = "7"
csv = "1"
futures = "0.3"
hex = "0.4"
humantime = "2"
reqwest = { version = "0.12", default-features = false, features = ["json", "rustls-tls"] }
rmcp = { version = "*", features = ["server", "macros", "transport-io", "transport-streamable-http-server"] }
schemars = "1"
serde = { version = "1", features = ["derive"] }
serde_json = "1"
sha2 = "0.10"
tokio = { version = "1", features = ["macros", "rt-multi-thread", "net", "signal", "time", "io-std", "io-util"] }
tokio-util = "0.7"
toml = "0.8"
tracing = "0.1"
url = "2"
