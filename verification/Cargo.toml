[package]
name = "squatter_spotter"
version = "0.1.0"
edition = "2021"
publish = false

[dependencies]
crates_io_api = "*"
csv = "*"
eyre = "*"
reqwest = { version = "*", features = ["rustls-tls"] }
serde = { version = "*", features = ["derive"] }
serde_json = "*"
tokio = { version = "*", features = ["macros", "rt", "time"] }
tokio-stream = "*"
tracing = "*"
tracing-subscriber = { version = "*", features = ["env-filter", "fmt"] }
url = "*"
