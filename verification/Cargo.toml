[package]
name = "rqr"
version = "0.1.0"
edition = "2021"
publish = false

[dependencies]
clap = { version = "4", features = ["derive"] }
hex = "0.4"
image = { version = "0.25", default-features = false, features = ["png", "jpeg", "gif", "bmp", "webp"] }
qrcode = { version = "0.14", default-features = false }
rqrr = { version = "*", default-features = false }
thiserror = "1"
ureq = "2"
