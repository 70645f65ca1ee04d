[package]
name = "winshell"
version = "0.1.0"
edition = "2021"
publish = false

[dependencies]
font-kit = "0.14.3"
