[package]
name = "statsrelay"
version = "0.1.0"
edition = "2021"
publish = false

[dependencies]
anyhow = "1"
async-stream = "0.3"
bytes = "1"
dashmap = "*"
env_logger = "*"
futures = "0.3"
hyper = { version = "0.14", features = ["server", "http1", "tcp"] }
log = "0.4"
memchr = "2"
murmur3 = "*"
parking_lot = "*"
prometheus = { version = "*", default-features = false }
regex = "1"
rusoto_core = { version = "0.48", default-features = false, features = ["rustls"] }
rusoto_s3 = { version = "0.48", default-features = false, features = ["rustls"] }
serde = { version = "1", features = ["derive"] }
serde_json = "1"
stream-cancel = "*"
structopt = "0.3"
thiserror = "1"
tokio = { version = "1", features = ["full"] }
tokio-stream = "0.1"
