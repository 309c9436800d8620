[package]
name = "lewm_tools"
version = "0.1.0"
edition = "2021"
publish = false

[dependencies]
anyhow = "1"
candle-core = "*"
candle-nn = "*"
clap = { version = "4", features = ["derive"] }
csv = "1"
hdf5 = "*"
rayon = "1"
serde = { version = "1", features = ["derive"] }
serde_json = "1"
walkdir = "2"
