[package]
name = "stroke_selection"
version = "0.1.0"
edition = "2021"
publish = false

[dependencies]
descartes = "*"
