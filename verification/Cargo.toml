[package]
name = "graphql_lambda"
version = "0.1.0"
edition = "2021"
publish = false

[dependencies]
serde_json = "=1.0.151"
async-graphql = "=7.2.1"
http = "=1.5.0"
lambda_http = "=1.3.1"
tokio = { version = "=1.53.2", features = ["rt", "macros"] }
lazy_static = "=1.5.1"
tempfile = "=3.27.0"
