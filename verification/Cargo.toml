[package]
name = "management"
version = "0.1.0"
edition = "2021"
publish = false

[dependencies]
futures = "0.3"
prost = { version = "0.11", default-features = false, features = ["std"] }
