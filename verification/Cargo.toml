[package]
name = "uppe"
version = "0.1.0"
edition = "2021"
publish = false

[dependencies]
sha2 = "=0.10.9"
base64 = "=0.22.1"
ed25519-dalek = { version = "=2.2.0", features = ["rand_core"] }
url = "=2.5.8"
uuid = { version = "=1.29.0", features = ["v4", "v5"] }
serde = { version = "=1.0.229", features = ["derive"] }
serde_json = "=1.0.154"
toml = "=0.8.23"
anyhow = "=1.0.104"
tokio = { version = "=1.54.1", features = ["rt-multi-thread", "macros", "sync", "time", "net"] }
chrono = "=0.4.45"
hex = "=0.4.3"
rand = "=0.8.8"
tracing = "=0.1.44"
tracing-subscriber = "=0.3.23"
clap = { version = "=4.6.7", features = ["derive", "cargo"] }
libsql = { version = "*", default-features = false, features = ["core"] }
reqwest = { version = "*", default-features = false, features = ["json", "rustls-tls"] }
