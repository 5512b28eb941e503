[package]
name = "pt"
version = "0.1.0"
edition = "2021"
publish = false

[dependencies]
ruff_python_ast = "=0.0.8"
ruff_python_parser = "=0.0.8"
