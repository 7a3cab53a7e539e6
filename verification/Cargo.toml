[package]
name = "spire_kernel"
version = "0.1.0"
edition = "2021"
publish = false

[dependencies]
hex = "0.4"
sha2 = "0.10"
serde = { version = "1", features = ["derive"] }
serde_json = "1"
petgraph = "0.6"
rand = "0.8"
rayon = "1"
ureq = { version = "2", default-features = false }
