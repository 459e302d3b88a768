[package]
name = "maildir"
version = "0.1.0"
edition = "2021"
publish = false

[dependencies]
mailparse = "*"
nix = { version = "*", features = ["hostname", "process"] }
