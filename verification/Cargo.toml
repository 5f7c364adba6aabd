[package]
name = "hoposhell"
version = "0.1.0"
edition = "2021"
publish = false

[dependencies]
base64 = "0.22"
zstd = "0.13"
serde = { version = "1", features = ["derive"] }
serde_json = "1"
shellexpand = "3"
rand = "0.8"
glob = "0.3"
portable-pty = "0.8"
openssl = "0.10"
reqwest = { version = "0.12", features = ["blocking"] }
