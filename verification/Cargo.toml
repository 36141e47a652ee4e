[package]
name = "zipseq"
version = "0.1.0"
edition = "2021"
publish = false

[dependencies]
zip = { version = "*", default-features = false, features = ["deflate"] }
flate2 = "*"
serde_json = "*"
