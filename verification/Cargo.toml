[package]
name = "dyndns"
version = "0.1.0"
edition = "2021"
publish = false

[dependencies]
eyre = "0.6"
reqwest = { version = "0.12", default-features = false, features = ["blocking", "json"] }
serde = { version = "1", features = ["derive"] }
structopt = "0.3"
