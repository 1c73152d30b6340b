[package]
name = "theme_switch"
version = "0.1.0"
edition = "2021"
publish = false

[dependencies]
anyhow = "1"
dirs-next = "2"
serde = { version = "1", features = ["derive"] }
