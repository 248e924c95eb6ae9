[package]
name = "goop_converter"
version = "0.1.0"
edition = "2021"
publish = false

[dependencies]
chardetng = "0.1"
encoding_rs = "0.8"
img-parts = "0.3"
serde = { version = "1", features = ["derive"] }
serde_json = "1"
