[package]
name = "dronechain"
version = "0.1.0"
edition = "2021"
publish = false

[dependencies]
sha2 = "0.10"
openssl = "0.10"
serde = { version = "1", features = ["derive"] }
serde_json = "1"
walkdir = "2"
reqwest = { version = "0.11", features = ["json"] }
tokio = { version = "1", features = ["full"] }
actix-web = "4"
actix-cors = "0.7"
lazy_static = "1"
once_cell = "1"
local-ip-address = "0.6"
base64 = "0.21"
