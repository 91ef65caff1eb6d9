[package]
name = "vangers_srv"
version = "0.1.0"
edition = "2021"
publish = false

[dependencies]
rand = "0.8"
encoding = "0.2"
tokio = { version = "1", features = ["full"] }
clap = { version = "4", features = ["derive"] }
