[package]
name = "rustro"
version = "0.1.0"
edition = "2021"
publish = false

[dependencies]
anyhow = "*"
base32 = "*"
chrono = "*"
chrono-tz = "*"
futures-util = "*"
hmac = "*"
reqwest = { version = "*", default-features = false, features = ["json"] }
serde = { version = "*", features = ["derive"] }
serde_json = "*"
sha1 = "*"
sha2 = "*"
thiserror = "*"
tokio = { version = "*", features = ["rt-multi-thread", "macros", "sync", "time", "io-util", "signal"] }
tokio-tungstenite = "*"
toml = "*"
tracing = "*"
tracing-subscriber = "*"
uuid = { version = "*", features = ["v4"] }
