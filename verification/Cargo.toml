[package]
name = "docscan"
version = "0.1.0"
edition = "2021"
publish = false

[dependencies]
anyhow = "*"
cargo_toml = "*"
crossterm = "*"
proc-macro2 = "*"
syn = "*"
walkdir = "*"
