[package]
name = "zellij-attention"
version = "0.2.0"
edition = "2021"
publish = false

[dependencies]
bincode = { version = "2", features = ["serde"] }
serde = { version = "1", features = ["derive"] }
zellij-tile = "0.43"
