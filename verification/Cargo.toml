[package]
name = "rust_to_mermaid"
version = "0.1.0"
edition = "2021"
publish = false

[dependencies]
anyhow = "*"
clap = { version = "*", features = ["derive"] }
tree-sitter = "*"
tree-sitter-rust = "*"
walkdir = "*"
