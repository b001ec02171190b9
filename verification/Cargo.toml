[package]
name = "vitellary"
version = "0.1.0"
edition = "2021"
publish = false

[dependencies]
anyhow = "*"
argh = "*"
crossbeam-channel = "*"
env_logger = "*"
log = "*"
read-process-memory = "*"
tungstenite = "*"
