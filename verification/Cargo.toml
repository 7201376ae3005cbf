[package]
name = "rkik_nts"
version = "0.1.0"
edition = "2021"
publish = false

[dependencies]
ntp-proto = { version = "=1.9.0", default-features = false, features = ["__internal-test", "rustcrypto"] }
aes-siv = "=0.7.0"
rustls = { version = "=0.23.45", default-features = false, features = ["ring", "logging", "std", "tls12"] }
serde = { version = "=1.0.229", features = ["derive"] }
tokio = { version = "=1.53.2", features = ["net", "time", "rt", "rt-multi-thread", "macros"] }
rand = "=0.8.8"
