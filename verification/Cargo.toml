[package]
name = "fuzzcheck"
version = "0.1.0"
edition = "2021"
publish = false

[dependencies]
fastrand = "1"
json = "0.12"
decent-serde-json-alternative = "*"
serde = { version = "1", features = ["derive"] }
