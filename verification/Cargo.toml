[package]
name = "rusm"
version = "0.1.0"
edition = "2021"
publish = false

[dependencies]
flate2 = "1"
tokio-tungstenite = "*"
sha2 = "0.10"
serde = { version = "1", features = ["derive"] }
serde_json = "1"
bytes = "1"
tokio = { version = "1", features = ["full"] }
tokio-util = { version = "0.7", features = ["codec"] }
futures-util = { version = "0.3", features = ["sink"] }
hyper = { version = "1", features = ["server", "http1"] }
hyper-util = { version = "0.1", features = ["tokio"] }
http-body-util = "0.1"
tokio-rustls = { version = "0.26", default-features = false, features = ["ring", "logging", "tls12"] }
rustls-pemfile = "2"
anyhow = "1"
moka = { version = "0.12", features = ["future"] }
proc-macro2 = "1"
quote = "1"
syn = { version = "2", features = ["full"] }
