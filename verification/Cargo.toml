[package]
name = "sov_sequencer"
version = "0.1.0"
edition = "2021"
publish = false

[dependencies]
mini-moka = "0.10"
ipnet = "2"
anyhow = "1"
async-trait = "0.1"
serde = { version = "1", features = ["derive"] }
thiserror = "2"
