[package]
name = "beancount_formatter"
version = "0.1.0"
edition = "2021"
publish = false

[dependencies]
tree-sitter = "*"
tree-sitter-beancount = "*"
clap = { version = "*", features = ["derive"] }
toml = "*"
serde = { version = "*", features = ["derive"] }
anyhow = "*"
