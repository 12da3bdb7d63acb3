[package]
name = "libtock2"
version = "0.1.0"
edition = "2021"
publish = false

[dependencies]
clap = { version = "3", features = ["derive"] }
elf = "=0.0.10"
