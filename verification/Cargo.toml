[package]
name = "elm_exposing"
version = "0.1.0"
edition = "2021"
publish = false

[dependencies]
tree-sitter = "=0.17.1"
tree-sitter-elm = "=4.5.0"
lazy_static = "=1.5.1"
thiserror = "=1.0.69"
