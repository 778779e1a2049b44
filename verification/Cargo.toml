[package]
name = "fancy_talk"
version = "0.1.0"
edition = "2021"
publish = false

[dependencies]
ansi_term = "*"
