[package]
name = "mla_moe"
version = "0.1.0"
edition = "2021"
publish = false

[dependencies]
candle-core = "*"
candle-nn = "*"
serde = { version = "*", features = ["derive"] }
