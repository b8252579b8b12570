[package]
name = "sizematters"
version = "0.1.0"
edition = "2021"
publish = false

[dependencies]
md5 = "*"
rand = "*"
regex = "*"
serde = { version = "*", features = ["derive"] }
serde_json = "*"
uuid = { version = "*", features = ["v4"] }
actix = "*"
actix-rt = "*"
actix-web = "*"
actix-web-actors = "*"
env_logger = "*"
