[package]
name = "game_server"
version = "0.1.0"
edition = "2021"
publish = false

[dependencies]
anyhow = "1"
clap = "2"
log = "0.4"
tungstenite = { version = "0.17", default-features = false }
