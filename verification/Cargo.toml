[package]
name = "nostr_rs_relay"
version = "0.1.0"
edition = "2021"
publish = false

[dependencies]
bitcoin_hashes = "0.10"
chrono = "0.4"
futures = "0.3"
governor = "0.4"
hex = "0.4"
hmac = "0.12"
http = "0.2"
hyper = { version = "0.14", features = ["client", "server", "http1", "http2", "tcp"] }
hyper-staticfile = "0.9"
jwt = "0.16"
log = "0.4"
nostr = { version = "0.18", default-features = false, features = ["base", "nip19"] }
prometheus = "0.13"
qrcode = { version = "0.12", default-features = false, features = ["svg"] }
rusqlite = { version = "0.26", features = ["bundled"] }
secp256k1 = { version = "0.21", features = ["rand-std", "bitcoin_hashes"] }
serde = { version = "1", features = ["derive"] }
serde_json = "1"
sha2 = "0.10"
tera = "1"
tokio = { version = "1", features = ["full"] }
tokio-tungstenite = "0.17"
tracing = "0.1"
tungstenite = "0.17"
