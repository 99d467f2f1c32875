[package]
name = "rustfoil"
version = "0.1.0"
edition = "2021"
publish = false

[dependencies]
percent-encoding = "2"
zstd = "0.13"
flate2 = "1"
aes = "0.8"
rsa = "0.9"
rand = "0.8"
structopt = "0.3"
indicatif = "0.17"

[dev-dependencies]
serde_json = "1"
