[package]
name = "minizinc_model"
version = "0.1.0"
edition = "2021"
publish = false

[dependencies]
tree-sitter = "0.22"
