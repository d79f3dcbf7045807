[package]
name = "topdown"
version = "0.1.0"
edition = "2021"
publish = false

[dependencies]
hex = "=0.4.3"
blake2b_simd = "=1.0.5"
clap = { version = "=4.6.7", features = ["derive", "env"] }
tracing = "=0.1.44"
anyhow = "=1.0.104"
