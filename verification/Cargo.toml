[package]
name = "qdmatch"
version = "0.1.0"
edition = "2021"
publish = false

[dependencies]
rand = "*"
serde = { version = "*", features = ["derive"] }
serde_json = "*"
bson = "*"
mongodb = { version = "*", features = ["sync"] }
calamine = "*"
clap = "*"
