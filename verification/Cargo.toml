[package]
name = "impact-map-cli"
version = "0.1.0"
edition = "2021"
publish = false

[dependencies]
kdl = "4"
anyhow = "1"
clap = { version = "4", features = ["derive"] }
open = "5"
