[package]
name = "libra"
version = "0.1.0"
edition = "2021"
publish = false

[dependencies]
anyhow = "1"
clap = { version = "4", features = ["derive"] }
lazy_static = "1"
log = "0.4"
petgraph = "*"
serde = { version = "1", features = ["derive"] }
serde_json = "1"
simplelog = "*"
structopt = "0.3"
tempfile = "3"
walkdir = "2"
