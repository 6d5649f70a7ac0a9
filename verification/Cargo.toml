[package]
name = "huemanity"
version = "0.4.0"
edition = "2021"
publish = false

[dependencies]
clap = "2"
dirs = "2"
dotenv = "0.15"
http = "0.1"
reqwest = "0.9"
serde = { version = "1", features = ["derive"] }
serde_json = "1"
ssdp = "0.7"
