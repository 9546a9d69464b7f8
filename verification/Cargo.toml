[package]
name = "beacon_transition"
version = "0.1.0"
edition = "2021"
publish = false

[dependencies]
ring = "=0.17.14"
blst = "=0.3.17"
tree_hash = "=0.12.1"
ethereum-types = "=0.16.0"
ssz_types = "=0.14.1"
typenum = "=1.20.1"
serde = { version = "=1.0.229", features = ["derive"] }

[dev-dependencies]
ethereum_ssz = "=0.10.4"
