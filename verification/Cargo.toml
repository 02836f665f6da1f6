[package]
name = "runnables"
version = "0.1.0"
edition = "2021"
publish = false

[dependencies]
tree-sitter = "0.23"
tree-sitter-go = "0.23"
serde = { version = "1", features = ["derive"] }
thiserror = "1"
bon = "*"
