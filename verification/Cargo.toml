[package]
name = "aws_json_router"
version = "0.1.0"
edition = "2021"
publish = false

[dependencies]
http = "*"
tower = { version = "*", features = ["util"] }
anyhow = "*"
tempfile = "*"
thiserror = "*"
tracing = "*"
