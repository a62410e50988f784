[package]
name = "raptor"
version = "0.1.0"
edition = "2021"
publish = false

[dependencies]
fluke-hpack = "*"
mime_guess = "2"
chrono = "0.4"
httparse = "1"
fnmatch-regex = "*"
bytes = "1"
tokio = { version = "1", features = ["full"] }
tokio-rustls = { version = "0.26", default-features = false, features = ["ring", "tls12", "logging"] }
rustls-pemfile = "2"
clap = { version = "4", features = ["derive"] }
serde = { version = "1", features = ["derive"] }
serde_yaml = "0.9"
thiserror = "1"
tracing = "0.1"
tracing-subscriber = "0.3"
tracing-appender = "0.2"
