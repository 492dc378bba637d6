[package]
name = "plasm_lockdrop"
version = "0.1.0"
edition = "2021"
publish = false

[dependencies]
parity-scale-codec = { version = "3.6.12", features = ["derive"] }
frame-support = "38.2.0"
frame-system = "38.0.0"
hex = "0.4.3"
median = "0.3.2"
pallet-session = { version = "38.0.0", default-features = false, features = ["std"] }
scale-info = { version = "2", features = ["derive"] }
serde_json = "1"
sp-core = "34.0.0"
sp-io = "38.0.0"
sp-runtime = "39.0.0"
sp-std = "14.0.0"
