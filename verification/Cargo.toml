[package]
name = "quake3a"
version = "0.1.0"
edition = "2021"
publish = false

[dependencies]
regex = "1"
clap = "4"
thiserror = "1"
