[package]
name = "cargo-dirty"
version = "0.1.0"
edition = "2021"
publish = false

[dependencies]
anyhow = "1"
cargo_metadata = "*"
clap = { version = "4", features = ["derive"] }
owo-colors = "4"
regex = "1"
