[package]
name = "hidden_features"
version = "0.1.0"
edition = "2021"
publish = false

[dependencies]
toml = "*"
walkdir = "*"
structopt = "*"
