[package]
name = "bridge-inbound-lane"
version = "0.1.0"
edition = "2021"
publish = false

[dependencies]
parity-scale-codec = { version = "3.6", features = ["derive", "max-encoded-len"] }
scale-info = { version = "2.11", features = ["derive"] }
