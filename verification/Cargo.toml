[package]
name = "rhio"
version = "0.1.0"
edition = "2021"
publish = false

[dependencies]
anyhow = "1"
clap = { version = "4", features = ["derive"] }
tree-sitter = "0.22"
tree-sitter-bash = "0.21"
sha2 = "0.10"
serde = { version = "1", features = ["derive"] }
toml = "0.8"
