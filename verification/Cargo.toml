[package]
name = "login_codec"
version = "0.1.0"
edition = "2021"
publish = false

[dependencies]
md5 = "0.7"
anyhow = "1"
tokio = { version = "1", default-features = false, features = ["io-util", "net"] }
