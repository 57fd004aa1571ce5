[package]
name = "bundle_assets"
version = "0.1.0"
edition = "2021"
publish = false

[dependencies]
anyhow = "1"
binrw = "*"
clap = { version = "4", features = ["derive"] }
half = "2"
lz4_flex = "*"
serde = { version = "1", features = ["derive"] }
serde_json = "1"
