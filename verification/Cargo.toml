[package]
name = "rit"
version = "0.1.0"
edition = "2021"
publish = false

[dependencies]
sha256 = { version = "*", default-features = false }
zip = { version = "*", default-features = false, features = ["bzip2"] }
