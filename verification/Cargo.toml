[package]
name = "unica_coder"
version = "0.1.0"
edition = "2021"
publish = false

[dependencies]
roxmltree = "*"
serde_json = "*"
