[package]
name = "oysterpack_message"
version = "0.1.0"
edition = "2021"
publish = false

[dependencies]
exonum_sodiumoxide = "=0.0.24"
chrono = "=0.4.45"
nng = { version = "=1.0.1", default-features = false }
crossbeam = "=0.8.5"
log = "=0.4.34"
serde = { version = "=1.0.229", features = ["derive"] }
rmp-serde = "=1.3.1"
