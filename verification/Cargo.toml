[package]
name = "yizu_pages"
version = "0.1.0"
edition = "2021"
publish = false

[dependencies]
qrcode = { version = "=0.14.1", default-features = false, features = ["svg"] }
serde = { version = "=1.0.229", features = ["derive"] }
serde_json = "=1.0.154"
js-sys = "=0.3.107"
