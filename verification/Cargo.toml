[package]
name = "grink"
version = "0.1.0"
edition = "2021"
publish = false

[dependencies]
anyhow = "1"
clap = { version = "4", features = ["derive"] }
regex = "1"
reqwest = "0.12"
tokio = { version = "1", features = ["rt-multi-thread", "macros", "fs"] }
