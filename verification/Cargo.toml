[package]
name = "zinc"
version = "0.1.0"
edition = "2021"
publish = false

[dependencies]
num-bigint = "=0.4.8"
franklin-crypto = "=0.1.0"
log = "=0.4.34"
env_logger = "=0.11.11"
structopt = "=0.3.26"
failure = "=0.1.8"
serde = { version = "=1.0.229", features = ["derive"] }
serde_derive = "=1.0.229"
