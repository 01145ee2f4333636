[package]
name = "rigel"
version = "0.1.0"
edition = "2021"
publish = false

[dependencies]
argon2 = "*"
axum = "*"
bytes = "*"
chacha20 = "*"
futures-util = "*"
opener = "*"
rand = "*"
regex = "*"
resvg = "*"
tiny-skia = "*"
tokio = { version = "*", features = ["full"] }
tokio-util = { version = "*", features = ["io"] }
