[package]
name = "imgsort"
version = "0.1.0"
edition = "2021"
publish = false

[dependencies]
clap = { version = "*", features = ["derive"] }
image = "*"
log = "*"
simplelog = "*"
tokio = { version = "*", features = ["rt-multi-thread", "sync", "macros"] }
