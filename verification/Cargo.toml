[package]
name = "freemkv_fw"
version = "0.1.0"
edition = "2021"
publish = false

[dependencies]
thumb-asm = "*"
anyhow = "1"
