[package]
name = "jinglebell"
version = "0.1.0"
edition = "2021"
publish = false

[dependencies]
image = "*"
cosmic-text = "*"
clap = "*"
