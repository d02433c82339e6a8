[package]
name = "lending"
version = "0.1.0"
edition = "2021"
publish = false

[dependencies]
rand = "*"
prettytable-rs = "*"
