[package]
name = "pdf_export"
version = "0.1.0"
edition = "2021"
publish = false

[dependencies]
pdf-writer = "*"
ttf-parser = "*"
image = { version = "*", default-features = false }
