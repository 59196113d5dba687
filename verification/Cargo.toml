[package]
name = "atuin_common"
version = "0.1.0"
edition = "2021"
publish = false

[dependencies]
serde = { version = "*", features = ["derive"] }
time = { version = "*", features = ["serde"] }
uuid = { version = "*", features = ["v4"] }
