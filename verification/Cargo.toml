[package]
name = "stmt_proc"
version = "0.1.0"
edition = "2021"
publish = false

[dependencies]
calamine = "*"
csv = "1"
md5 = "0.7"
serde = { version = "1", features = ["derive"] }
serde_json = "1"
