[package]
name = "pko_tools"
version = "0.1.0"
edition = "2021"
publish = false

[dependencies]
base64 = "0.22"
texture2ddecoder = "*"
image = { version = "0.25", default-features = false, features = ["png", "bmp", "tga", "dds", "jpeg"] }
cgmath = "0.18"
serde = { version = "1", features = ["derive"] }
serde_json = "1"
anyhow = "1"
gltf = { version = "1", default-features = false, features = ["names", "utils", "extras"] }
kaitai = "*"
