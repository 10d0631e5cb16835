[package]
name = "pallet_circuit"
version = "0.1.0"
edition = "2021"
publish = false

[dependencies]
parity-scale-codec = { version = "3", features = ["derive"] }
scale-info = { version = "2", features = ["derive"] }
log = "0.4"
sp-core = "*"
sp-runtime = "*"
sp-std = "*"
frame-support = "*"
frame-system = "*"
t3rn-sdk-primitives = "0.1.0"
