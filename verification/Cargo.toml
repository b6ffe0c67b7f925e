[package]
name = "forge"
version = "0.1.0"
edition = "2021"
publish = false

[dependencies]
unicode-ident = "1"
unicode-segmentation = "1.11"
termcolor = "1"
clap = { version = "4", features = ["derive"] }
indoc = "2"
thiserror = "1"
