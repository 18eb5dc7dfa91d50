[package]
name = "jupyter2typst"
version = "0.1.0"
edition = "2021"
publish = false

[dependencies]
markdown = "*"
rustop = "*"
tinyjson = "*"
