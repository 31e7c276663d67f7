[package]
name = "gui"
version = "0.1.0"
edition = "2021"
publish = false

[dependencies]
luminance = "*"
luminance-gl = "*"
nalgebra = "*"
serde = { version = "1", features = ["derive"] }
serde_json = "1"
