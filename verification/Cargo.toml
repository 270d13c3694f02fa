[package]
name = "chat_server"
version = "0.1.0"
edition = "2021"

[dependencies]
openssl = "0.10"
async-std = "1"
