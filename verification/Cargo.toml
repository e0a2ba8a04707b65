[package]
name = "hdtr"
version = "0.1.0"
edition = "2021"
publish = false

[dependencies]
image = { version = "0.24", default-features = false, features = ["png", "jpeg", "bmp"] }
rayon = "1"
serde = { version = "1", features = ["derive"] }
serde_json = "1"
colored = "2"
