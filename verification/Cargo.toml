[package]
name = "wataxrate"
version = "0.1.0"
edition = "2021"
publish = false

[dependencies]
strong-xml = "0.6"
url = "2"
reqwest = "*"
tokio = { version = "1", features = ["time"] }
