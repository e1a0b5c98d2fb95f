[package]
name = "pdf_to_image"
version = "0.1.0"
edition = "2021"
publish = false

[dependencies]
cairo-rs = { version = "*", features = ["pdf", "png"] }
napi = "2"
napi-derive = "2"
poppler-rs = "*"
