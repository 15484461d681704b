[package]
name = "fibonacci_stable"
version = "0.1.0"
edition = "2021"
publish = false

[dependencies]
chrono = "*"

[dev-dependencies]
regex = "*"
