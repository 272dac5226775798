[package]
name = "slinky"
version = "0.1.0"
edition = "2021"
publish = false

[dependencies]
anyhow = "1"
clap = { version = "4", features = ["derive"] }
clap_complete = "4"
clap_mangen = "0.2"
colored = "2"
pathdiff = "0.2"
regex = "1"
strum = { version = "0.26", features = ["derive"] }
walkdir = "2"
