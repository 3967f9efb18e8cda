[package]
name = "revpfw3"
version = "0.1.0"
edition = "2021"

[dependencies]
serial = "*"
