[package]
name = "gothic"
version = "0.1.0"
edition = "2021"
publish = false

[dependencies]
anyhow = "=1.0.104"
arboard = "=3.7.0"
chromiumoxide = "=0.9.1"
clap = { version = "=4.6.7", features = ["derive"] }
crossterm = "=0.29.0"
futures = "=0.3.34"
jsonc-parser = { version = "=0.34.0", features = ["serde"] }
serde = { version = "=1.0.229", features = ["derive"] }
tokio = { version = "=1.54.1", features = ["full"] }
tracing = "=0.1.44"
tracing-appender = "=0.2.5"
tracing-subscriber = { version = "=0.3.23", features = ["env-filter", "fmt", "registry"] }
