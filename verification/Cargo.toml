[package]
name = "treecomp"
version = "0.1.0"
edition = "2021"
publish = false

[dependencies]
phylotree = "*"
serde_json = "1"
anyhow = "1"
clap = { version = "4", features = ["derive"] }
crossbeam-channel = "0.5"
flate2 = "1"
indicatif = "0.17"
