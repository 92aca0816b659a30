[package]
name = "scry_proxy"
version = "0.1.0"
edition = "2021"
publish = false

[dependencies]
anyhow = "1"
async-trait = "0.1"
deadpool = { version = "0.10", features = ["rt_tokio_1"] }
futures = "0.3"
parking_lot = "0.12"
pin-project = "1"
rand = "0.8"
reqwest = { version = "0.12", default-features = false, features = ["gzip"] }
rustls = { version = "0.23", default-features = false, features = ["ring", "std", "tls12", "logging"] }
rustls-pemfile = "2"
scry-protocol = "*"
serde = { version = "1", features = ["derive"] }
serde_json = "1"
thiserror = "1"
tokio = { version = "1", features = ["full"] }
tokio-rustls = { version = "0.26", default-features = false, features = ["ring", "tls12", "logging"] }
tracing = "0.1"
uuid = { version = "1", features = ["v4"] }
webpki-roots = "0.26"
