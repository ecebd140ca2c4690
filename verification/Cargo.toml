[package]
name = "gb"
version = "0.1.0"
edition = "2021"
publish = false

[dependencies]
clap = { version = "4", features = ["derive"] }
color-eyre = "0.6"
colored = "2"
once_cell = "1"
toml_edit = "0.19"
tree-sitter = "0.20"
