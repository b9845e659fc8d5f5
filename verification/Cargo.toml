[package]
name = "kaos"
version = "0.1.0"
edition = "2021"
publish = false

[dependencies]
fail = { version = "*", features = ["failpoints"] }
glob = "*"
humantime = "*"
proptest = { version = "*", default-features = false, features = ["std"] }
toml = "*"
