[package]
name = "yapall"
version = "0.1.0"
edition = "2021"
publish = false

[dependencies]
anyhow = "=1.0.104"
ascent = "=0.8.1"
clap = { version = "=4.6.7", features = ["derive"] }
either = "=1.19.0"
regex = "=1.13.1"
rustc-hash = "=1.1.0"
serde = { version = "=1.0.229", features = ["derive"] }
serde_json = "=1.0.154"
thiserror = "=1.0.69"
tracing = "=0.1.44"
tracing-flame = "=0.2.0"
tracing-subscriber = "=0.3.23"
