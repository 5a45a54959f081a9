[package]
name = "launchkit"
version = "0.1.0"
edition = "2021"
publish = false

[dependencies]
anyhow = "*"
itertools = "*"
rayon = "*"
serde = { version = "*", features = ["derive"] }
serde-xml-rs = "*"
serde_yaml = "*"
strong-xml = "*"
