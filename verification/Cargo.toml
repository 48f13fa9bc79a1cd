[package]
name = "image_rename_split"
version = "0.1.0"
edition = "2021"
publish = false

[dependencies]
image = "*"

[dev-dependencies]
base64 = "*"
