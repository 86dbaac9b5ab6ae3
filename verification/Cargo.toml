[package]
name = "crux_cli"
version = "0.1.0"
edition = "2021"
publish = false

[dependencies]
lazy-regex = "3"
rustdoc-types = "0.32"
serde = { version = "1", features = ["derive"] }
