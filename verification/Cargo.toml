[package]
name = "epigen"
version = "0.1.0"
edition = "2021"
publish = false

[dependencies]
clap = { version = "=3.2.25", features = ["cargo"] }

[dev-dependencies]
nom = "7"
