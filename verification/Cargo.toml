[package]
name = "currant"
version = "0.1.0"
edition = "2021"
publish = false

[dependencies]
atty = "0.2"
nix = { version = "0.29", features = ["signal"] }
rand = "0.8"
shell-words = "1"
