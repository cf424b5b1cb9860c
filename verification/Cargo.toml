[package]
name = "sentia"
version = "0.1.0"
edition = "2021"
publish = false

[dependencies]
sha2 = "=0.10.9"
url = "=2.5.8"
serde = { version = "=1.0.229", features = ["derive"] }
serde_json = "=1.0.154"
libc = "=0.2.191"
flate2 = "=1.1.10"
walkdir = "=2.5.0"
toml = "=1.1.8"
rand = "=0.8.8"
thiserror = "=2.0.21"
tokio = { version = "=1.54.1", features = ["full"] }
tokio-util = { version = "=0.7.20", features = ["codec"] }
futures-util = { version = "=0.3.34", features = ["sink"] }
nix = { version = "=0.31.3", features = ["fs"] }
rusqlite = { version = "=0.41.1", features = ["bundled"] }
reqwest = { version = "=0.12.28", default-features = false, features = ["json", "rustls-tls", "stream"] }
zbus = "=6.2.1"
