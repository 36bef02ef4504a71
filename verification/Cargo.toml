[package]
name = "thor"
version = "0.1.0"
edition = "2021"
publish = false

[dependencies]
encoding = "0.2"
flate2 = "1"

[dev-dependencies]
nom = { version = "5", default-features = false, features = ["std"] }
