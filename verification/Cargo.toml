[package]
name = "neutron_sim"
version = "0.1.0"
edition = "2021"
publish = false

[dependencies]
log = "0.4"
rand = { version = "0.8", features = ["small_rng"] }
serde = { version = "1", features = ["derive"] }
