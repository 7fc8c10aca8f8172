[package]
name = "filter_lex"
version = "0.1.0"
edition = "2021"
publish = false

[dependencies]
cidr = "*"
regex = "1"
serde = { version = "1", features = ["derive"] }
