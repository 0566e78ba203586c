[package]
name = "dmux"
version = "0.1.0"
edition = "2021"
publish = false

[dependencies]
anyhow = "=1.0.104"
chrono = "=0.4.45"
clap = { version = "=4.6.7", features = ["derive"] }
libc = "=0.2.191"
log = "=0.4.35"
mlua = { version = "=0.9.9", features = ["lua54", "vendored", "serialize"] }
names = { version = "=0.14.0", default-features = false }
parking_lot = "=0.12.5"
percent-encoding = "=2.3.2"
serde = { version = "=1.0.229", features = ["derive"] }
serde_json = "=1.0.154"
sha2 = "=0.10.9"
uuid = { version = "=1.29.0", features = ["v4"] }
