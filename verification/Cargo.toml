[package]
name = "chudo"
version = "0.1.0"
edition = "2021"
publish = false

[dependencies]
sha3 = "=0.10.9"
ed25519-dalek = "=2.2.0"
rand = "=0.8.8"
x25519-dalek = { version = "=2.0.1", features = ["static_secrets"] }
hkdf = "=0.12.4"
sha2 = "=0.10.9"
aes-gcm = "=0.10.3"
hex = "=0.4.3"
uuid = { version = "=1.29.0", features = ["v4"] }
md5 = "=0.7.0"
chrono = { version = "=0.4.45", features = ["serde"] }
bincode = "=1.3.3"
serde = { version = "=1.0.229", features = ["derive"] }
anyhow = "=1.0.104"
tokio = { version = "=1.54.1", features = ["rt-multi-thread", "macros", "sync", "time"] }
tokio-stream = "=0.1.19"
tonic = { version = "=0.12.3", default-features = false }
tracing = "=0.1.44"
