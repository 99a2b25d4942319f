[package]
name = "social_api"
version = "0.1.0"
edition = "2021"
publish = false

[dependencies]
chrono = "0.4"
magic-crypt = "*"
mysql = { version = "*", default-features = false, features = ["minimal"] }
num = "0.4"
rand = "*"
sha256 = "*"
uuid = { version = "*", features = ["v4"] }
