[package]
name = "htmlparser"
version = "0.1.0"
edition = "2021"
publish = false

[dependencies]
rustc_lexer = "*"
