[package]
name = "mjlog2json"
version = "0.1.0"
edition = "2021"
publish = false

[dependencies]
percent-encoding = "*"
quick-xml = "*"
serde_json = { version = "*", features = ["preserve_order"] }
argh = "*"
async-std = { version = "*", features = ["attributes"] }
futures = "*"
glob = "*"
