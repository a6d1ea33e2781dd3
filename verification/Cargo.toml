[package]
name = "unitypack"
version = "0.1.0"
edition = "2021"
publish = false

[dependencies]
anyhow = "*"
clap = { version = "*", features = ["derive"] }
flate2 = "*"
tar = "*"
tokio = { version = "*", features = ["fs", "macros", "rt-multi-thread", "sync"] }
