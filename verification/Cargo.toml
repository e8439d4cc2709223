[package]
name = "log4rs"
version = "0.1.0"
edition = "2021"
publish = false

[dependencies]
antidote = "1"
log = "0.3"
serde = { version = "1", features = ["derive"] }
serde-value = "0.7"
