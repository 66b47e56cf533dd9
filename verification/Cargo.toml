[package]
name = "cargo-remote"
version = "0.2.0"
edition = "2021"
publish = false

[dependencies]
cargo_metadata = "0.12"
log = "0.4"
simple_logger = "1"
structopt = "0.3"
toml = "0.5"
xdg = "2"
