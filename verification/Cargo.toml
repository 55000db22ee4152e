[package]
name = "onmsctl"
version = "0.1.0"
edition = "2021"
publish = false

[dependencies]
percent-encoding = "2"
serde = { version = "1", features = ["derive"] }
serde_json = "1"
serde_norway = "*"
quick-xml = { version = "*", features = ["serialize"] }
clap = { version = "4", features = ["derive"] }
