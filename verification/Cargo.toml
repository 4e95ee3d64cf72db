[package]
name = "layout"
version = "0.1.0"
edition = "2021"
publish = false

[dependencies]
euclid = "0.22"
rustc-serialize = "0.3"
