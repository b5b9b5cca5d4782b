[package]
name = "home_dashboard"
version = "0.1.0"
edition = "2021"
publish = false

[dependencies]
jiff = "*"
heapless = "*"
serde = { version = "*", features = ["derive"] }
serde-json-core = "*"
sntpc = "*"
