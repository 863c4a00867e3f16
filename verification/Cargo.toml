[package]
name = "angler"
version = "0.1.0"
edition = "2021"
publish = false

[dependencies]
clap = "4"
thiserror = "1"

[dev-dependencies]
regex = "1"
time = "0.3"
