[package]
name = "props_parser"
version = "0.1.0"
edition = "2021"
publish = false

[dependencies]
regex = "1"
colored = "2"
thiserror = "1"
