[package]
name = "cargo_rx"
version = "0.3.0"
edition = "2021"
publish = false

[dependencies]
cargo-options = "0.1"
cargo_toml = "0.14"
clap = { version = "3", features = ["derive"] }
colored = "2"
home = "0.5"
path-absolutize = "3"
serde = { version = "1", features = ["derive"] }
shellwords = "1"
toml = "0.5"
