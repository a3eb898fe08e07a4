[package]
name = "fumohouse_auth"
version = "0.1.0"
edition = "2021"
publish = false

[dependencies]
argon2 = "=0.5.3"
chrono = "0.4"
comrak = "0.18"
dotenvy = "0.15"
fern = { version = "0.6", features = ["colored"] }
log = "0.4"
rand = "=0.8.8"
serde = { version = "1", features = ["derive"] }
serde_yaml = "0.9"
sha2 = "=0.10.9"
