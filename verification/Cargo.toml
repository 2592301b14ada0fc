[package]
name = "pretty_tree"
version = "0.1.0"
edition = "2021"
publish = false

[dependencies]
colored = "2"
indexmap = "2"
serde_json = "1"
