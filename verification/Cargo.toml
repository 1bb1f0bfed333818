[package]
name = "numa"
version = "0.1.0"
edition = "2021"
publish = false

[dependencies]
arc-swap = "1"
axum = "0.8"
base64 = "=0.22.1"
futures = "0.3"
http-body-util = "0.1"
hyper = { version = "1", features = ["http1", "server", "client"] }
hyper-util = { version = "0.1", features = ["client-legacy", "http1", "tokio", "service"] }
ipnet = "=2.12.2"
log = "0.4"
odoh-rs = "=1.0.4"
proxy-header = { version = "=0.1.3", features = ["tokio"] }
psl = "=2.1.246"
qrcode = { version = "0.14", default-features = false, features = ["svg"] }
rand_core = { version = "0.9", features = ["os_rng"] }
reqwest = { version = "=0.12.28", default-features = false, features = ["rustls-tls"] }
ring = "=0.17.14"
rustls = { version = "0.23", default-features = false, features = ["ring", "std"] }
serde = { version = "1", features = ["derive"] }
serde_json = "1"
tokio = { version = "1", features = ["full"] }
tokio-rustls = { version = "0.26", default-features = false, features = ["ring"] }
toml = "0.8"
