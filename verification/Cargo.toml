[package]
name = "sozu"
version = "0.1.0"
edition = "2021"
publish = false

[dependencies]
mio = "=0.5.1"
openssl = "=0.7.14"
rand = "=0.3.23"
serde = "=0.8.23"
toml = { version = "=0.2.1", default-features = false, features = ["serde"] }
