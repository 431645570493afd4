[package]
name = "strange_cipher"
version = "0.1.0"
edition = "2021"
publish = false

[dependencies]
base64 = "0.21"
env_logger = "0.10"
rand = "0.8"
tungstenite = "0.21"
url = "2"
x25519-dalek = "2"
