[package]
name = "rocket_lamb"
version = "0.1.0"
edition = "2021"
publish = false

[dependencies]
aws_lambda_events = "=0.4.0"
failure = "=0.1.8"
http = "=0.2.12"
lamedh_http = "=0.3.0"
lamedh_runtime = "=0.3.0"
rocket = "=0.5.2"
serde_json = "=1.0.154"
tokio = { version = "=1.54.1", features = ["sync", "rt", "macros"] }
