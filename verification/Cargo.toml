[package]
name = "school_core"
version = "0.1.0"
edition = "2021"
publish = false

[dependencies]
anyhow = "*"
serde_yaml = "*"
