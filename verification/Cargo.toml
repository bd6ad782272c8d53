[package]
name = "synchalo"
version = "0.1.0"
edition = "2021"
publish = false

[dependencies]
blake3 = "1"
hmac = "0.12"
sha2 = "0.10"
ed25519-dalek = "2"
chacha20poly1305 = "0.10"
base64 = "0.22"
getrandom = "0.3"
subtle = "2"
uuid = { version = "1", features = ["v4", "v7"] }
spake2 = "0.4"
serde = { version = "1", features = ["derive"] }
serde_json = "1"
tokio = { version = "1", features = ["rt-multi-thread", "macros", "fs", "io-util", "sync", "time"] }
quinn = "0.11"
rustls = { version = "0.23", default-features = false, features = ["ring", "std"] }
rcgen = "0.13"
rusqlite = { version = "*", features = ["bundled", "backup"] }
mdns-sd = "*"
if-addrs = "*"
arboard = { version = "3", default-features = false }
chrono = "0.4"
parking_lot = "0.12"
keyring = "3"
zeroize = "1"
directories = "6"
hostname = "0.4"
url = "2"
fs2 = "0.4"
tracing = "0.1"
thiserror = "2"
