[package]
name = "aizumi"
version = "0.1.0"
edition = "2021"
publish = false

[dependencies]
serde = { version = "1", features = ["derive"] }
serde_json = "1"
actix-web = "4"
clap = { version = "4", features = ["derive"] }
