[package]
name = "meetgraph"
version = "0.1.0"
edition = "2021"
publish = false

[dependencies]
csv = "1"
neo4rs = "*"
serenity = "0.12"
tokio = { version = "1", features = ["macros", "rt-multi-thread"] }
