[package]
name = "kickstart"
version = "0.1.0"
edition = "2021"
publish = false

[dependencies]
toml = { version = "0.8", features = ["preserve_order"] }
tera = { version = "1", default-features = false }
clap = "4"
walkdir = "2"
