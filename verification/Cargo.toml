[package]
name = "gcp_logging"
version = "0.1.0"
edition = "2021"
publish = false

[dependencies]
chrono = { version = "0.4", features = ["serde"] }
serde = { version = "1", features = ["derive"] }
serde_json = "1"
colored = "*"
clap = { version = "4", features = ["derive"] }
gethostname = "*"
tracing = "0.1"
tracing-subscriber = { version = "0.3", features = ["registry", "fmt"] }
