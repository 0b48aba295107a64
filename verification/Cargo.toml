[package]
name = "miassistant"
version = "0.1.0"
edition = "2021"
publish = false

[dependencies]
aes = "0.8"
anyhow = "1"
base64 = "0.22"
byteorder = "1"
cbc = { version = "0.1", features = ["alloc"] }
clap = { version = "4", features = ["derive"] }
dirs-next = "2"
env_logger = "0.11"
hex = "0.4"
indicatif = "0.17"
log = "0.4"
md-5 = "0.10"
reqwest = { version = "0.12", features = ["blocking"] }
rusb = "0.9"
serde = { version = "1", features = ["derive"] }
serde_json = "1"
