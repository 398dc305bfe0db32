[package]
name = "spec_extract"
version = "0.1.0"
edition = "2021"
publish = false

[dependencies]
tree-sitter = "*"
tree-sitter-go = "*"
tree-sitter-python = "*"
tree-sitter-rust = "*"
tree-sitter-typescript = "*"
serde = { version = "*", features = ["derive"] }
serde_json = "*"
serde_yaml = "*"
anyhow = "*"
chrono = "*"
clap = { version = "*", features = ["derive"] }
walkdir = "*"
