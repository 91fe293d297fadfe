[package]
name = "uvspeed_prefix_engine"
version = "0.1.0"
edition = "2021"
publish = false

[dependencies]
serde = { version = "*", features = ["derive"] }
serde_json = "*"
tree-sitter = "*"
tree-sitter-c = "*"
tree-sitter-go = "*"
tree-sitter-javascript = "*"
tree-sitter-python = "*"
tree-sitter-rust = "*"
tree-sitter-typescript = "*"
