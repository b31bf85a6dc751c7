[package]
name = "manga_reader"
version = "0.1.0"
edition = "2021"
publish = false

[dependencies]
zip = { version = "*", default-features = false, features = ["deflate"] }
image = "*"
serde = { version = "*", features = ["derive"] }
serde_json = "*"
unrar = "*"
pdfium-render = "*"
