[package]
name = "batchframe"
version = "0.1.0"
edition = "2021"
publish = false

[dependencies]
anyhow = "*"
datafusion = { version = "*", default-features = false }
