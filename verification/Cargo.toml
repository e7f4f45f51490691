[package]
name = "filter_expr"
version = "0.1.0"
edition = "2021"
publish = false

[dependencies]
anyhow = "1"
bet = "*"
serde = { version = "1", features = ["derive"] }
serde_json = "1"
clap = { version = "4", features = ["derive"] }
