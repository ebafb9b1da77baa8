[package]
name = "pathtracer"
version = "0.1.0"
edition = "2021"
publish = false

[dependencies]
rand = "0.8"
image = { version = "0.23", default-features = false, features = ["jpeg", "png"] }
chrono = "0.4"
