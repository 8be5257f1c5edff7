[package]
name = "pico_limbo"
version = "0.1.0"
edition = "2021"
publish = false

[dependencies]
serde = { version = "1", features = ["derive"] }
serde_json = "1"
toml = "*"
tokio = { version = "1", features = ["rt-multi-thread", "macros", "time", "net", "io-util", "sync"] }
reqwest = { version = "*", default-features = false, features = ["json", "rustls-tls"] }
tracing = "*"
tracing-subscriber = "*"
thiserror = "*"
