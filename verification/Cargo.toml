[package]
name = "layer"
version = "0.1.0"
edition = "2021"
publish = false

[dependencies]
aes = "=0.8.4"
chrono = { version = "=0.4.45", default-features = false, features = ["std"] }
flate2 = "=1.1.10"
getrandom = "=0.2.17"
hmac = "=0.12.1"
num-bigint = "=0.4.8"
num-traits = "=0.2.19"
pbkdf2 = "=0.12.2"
rusqlite = { version = "*", features = ["bundled"] }
sha1 = "=0.10.7"
sha2 = "=0.10.9"
tokio = { version = "=1.54.1", features = ["io-util", "net", "rt", "sync", "time"] }
tokio-socks = "=0.5.3"
