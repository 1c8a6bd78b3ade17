[package]
name = "genesis"
version = "0.1.0"
edition = "2021"
publish = false

[dependencies]
bytebuffer = "=2.3.0"
byteorder = "=1.5.0"
rust-base58 = "=0.0.4"
rust-crypto = "=0.2.36"
ring = "=0.17.14"
chrono = "=0.4.45"
serde = { version = "=1.0.229", features = ["derive"] }
serde_json = "=1.0.154"
bit-vec = "=0.10.1"
mio = "=0.6.23"
config = "=0.9.3"
igd = "=0.12.1"
regex = "=1.13.1"
