[package]
name = "tacview_split"
version = "0.1.0"
edition = "2021"
publish = false

[dependencies]
anyhow = "1"
zip = { version = "0.6", default-features = false, features = ["deflate"] }
