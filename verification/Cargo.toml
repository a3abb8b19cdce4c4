[package]
name = "counter_agg"
version = "0.1.0"
edition = "2021"
publish = false

[dependencies]
rustc_apfloat = "*"
serde = { version = "1", features = ["derive"] }
