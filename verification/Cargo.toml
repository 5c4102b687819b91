[package]
name = "assetsync"
version = "0.1.0"
edition = "2021"
publish = false

[dependencies]
sha2 = "*"
reqwest = { version = "*", default-features = false, features = ["blocking"] }
