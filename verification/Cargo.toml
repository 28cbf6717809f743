[package]
name = "ircbot"
version = "0.1.0"
edition = "2021"
publish = false

[dependencies]
bufstream = "0.1"
openssl = "0.10"
rand = "0.3"
toml = { version = "0.2", default-features = false }
