[package]
name = "doc_md"
version = "0.1.0"
edition = "2021"
publish = false

[dependencies]
comrak = "=0.44.0"
ammonia = "=4.2.1"
serde = { version = "=1.0.229", features = ["derive"] }
