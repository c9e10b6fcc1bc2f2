[package]
name = "tycoon"
version = "0.1.0"
edition = "2021"
publish = false

[dependencies]
dotenvy = "*"
poise = "*"
serde = { version = "*", features = ["derive"] }
tokio = { version = "*", features = ["fs", "io-util", "time"] }
toml = "*"
tracing = "*"
