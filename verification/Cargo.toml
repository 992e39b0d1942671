[package]
name = "masternode"
version = "0.1.0"
edition = "2021"
publish = false

[dependencies]
bs58 = "=0.5.1"
frame-support = "*"
frame-system = "*"
log = "=0.4.34"
parity-scale-codec = { version = "*", features = ["derive"] }
scale-info = { version = "*", features = ["derive"] }
serde = { version = "=1.0.229", features = ["derive"] }
serde_json = "=1.0.154"
sp-api = "*"
sp-core = "*"
sp-io = "*"
sp-runtime = "*"
