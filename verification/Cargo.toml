[package]
name = "scopelint"
version = "0.1.0"
edition = "2021"
publish = false

[dependencies]
regex = "1"
solang-parser = "0.3"
walkdir = "2"
colored = "2"
clap = { version = "4", features = ["derive"] }
taplo = "*"

[dev-dependencies]
itertools = "0.10"
