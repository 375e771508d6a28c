[package]
name = "pascal_string"
version = "0.1.0"
edition = "2021"
publish = false

[dependencies]
ascii = "*"
odds = "*"
