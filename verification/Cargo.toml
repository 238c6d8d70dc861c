[package]
name = "query_format"
version = "0.1.0"
edition = "2021"
publish = false

[dependencies]
clap = { version = "=4.6.7", features = ["derive"] }
tree-sitter = "=0.20.10"
tree-sitter-query = "=0.1.0"
