[package]
name = "backsnap"
version = "0.1.0"
edition = "2021"
publish = false

[dependencies]
serde = { version = "=1.0.229", features = ["derive"] }
serde_json = "=1.0.154"
chrono = "0.4"
dirs = "*"
hidapi = "2"
libc = "0.2"
log = "0.4"
rayon = "1"
reqwest = { version = "0.12", default-features = false, features = ["blocking", "json"] }
