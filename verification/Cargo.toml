[package]
name = "idiot_solitaire"
version = "0.1.0"
edition = "2021"
publish = false

[dependencies]
chrono = { version = "0.4", features = ["serde"] }
cursive = { version = "0.17", default-features = false, features = ["crossterm-backend"] }
getset = "0.1"
log = "0.4"
rand = "0.8"
serde = { version = "1", features = ["derive"] }
serde_json = "1"
unicode-width = "0.1"
uuid = { version = "1", features = ["serde", "v4"] }
