[package]
name = "oxypp"
version = "0.1.0"
edition = "2021"
publish = false

[dependencies]
tungstenite = "0.20"
