[package]
name = "pong"
version = "0.1.0"
edition = "2021"
publish = false

[dependencies]
rand = "0.8"
futures = { version = "0.3", default-features = false, features = ["executor"] }
bytemuck = { version = "1", features = ["derive"] }
