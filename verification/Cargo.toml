[package]
name = "messier"
version = "0.1.0"
edition = "2021"
publish = false

[dependencies]
chrono = { version = "0.4", default-features = false, features = ["alloc", "std"] }
opener = { version = "0.7", default-features = false }
