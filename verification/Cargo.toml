[package]
name = "pdf_relevance"
version = "0.1.0"
edition = "2021"
publish = false

[dependencies]
anyhow = "*"
chrono = "*"
pdf = "*"
serde = { version = "*", features = ["derive"] }
serde_json = "*"
