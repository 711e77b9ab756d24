[package]
name = "pardalotus_snapshot_tool"
version = "0.1.0"
edition = "2021"
publish = false

[dependencies]
anyhow = "1"
flate2 = "1"
serde_json = "1"
structopt = "0.3"
tar = "0.4"
