[package]
name = "fib_rs"
version = "0.1.0"
edition = "2021"
publish = false

[dependencies]
num-bigint = "*"
num-traits = "*"
rayon = "*"
clap = { version = "*", features = ["derive"] }
