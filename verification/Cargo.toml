[package]
name = "snapshot_fonts"
version = "0.1.0"
edition = "2021"
publish = false

[dependencies]
bon = "*"
clap = { version = "4", features = ["derive"] }
color-eyre = "*"
v_utils = "*"
