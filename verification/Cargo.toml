[package]
name = "rim"
version = "0.1.0"
edition = "2021"
publish = false

[dependencies]
clap = "3"
reqwest = { version = "0.11", default-features = false, features = ["blocking", "rustls-tls"] }
shellexpand = "2.1"
