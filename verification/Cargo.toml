[package]
name = "ipinspector"
version = "0.1.0"
edition = "2021"
publish = false

[dependencies]
ipnet = "2"
ipnetwork = "*"
clap = { version = "4", features = ["derive"] }
