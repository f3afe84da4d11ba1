[package]
name = "modelc"
version = "0.1.0"
edition = "2021"
publish = false

[dependencies]
byteorder = "1"
clap = { version = "3", features = ["cargo"] }
serde = { version = "1", features = ["derive"] }
serde_json = "1"
