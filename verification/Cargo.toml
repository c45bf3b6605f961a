[package]
name = "syntra"
version = "0.1.0"
edition = "2021"
publish = false

[dependencies]
base64 = "=0.22.1"
chrono = { version = "=0.4.45", default-features = false, features = ["std", "clock"] }
dirs = "=6.0.0"
flate2 = "=1.1.10"
hostname = "=0.4.2"
image = { version = "=0.25.10", default-features = false, features = ["png", "jpeg", "webp", "gif", "bmp"] }
libc = "=0.2.191"
log = "=0.4.35"
num_enum = "0.7"
reqwest = { version = "=0.12.28", default-features = false, features = ["blocking", "json", "rustls-tls"] }
rusqlite = { version = "=0.32.1", features = ["bundled"] }
semver = "=1.0.28"
serde = { version = "=1.0.229", features = ["derive"] }
serde_json = "=1.0.154"
sha2 = "=0.10.9"
tar = "=0.4.46"
tempfile = "=3.27.0"
thiserror = "=2.0.21"
tokio = { version = "=1.54.1", features = ["rt", "sync"] }
zip = { version = "=2.6.1", default-features = false, features = ["deflate"] }
