[package]
name = "rustui"
version = "0.1.0"
edition = "2021"
publish = false

[dependencies]
rand = "0.8"
nix = { version = "0.29", features = ["term", "fs"] }
