[package]
name = "server"
version = "0.1.0"
edition = "2021"
publish = false

[dependencies]
chrono = "*"
dotenvy = "*"
mime_guess = "*"
serde = "*"
serde_json = "*"
tokio = { version = "*", features = ["rt", "rt-multi-thread", "net", "io-util", "macros"] }
