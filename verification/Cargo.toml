[package]
name = "dasch_science"
version = "0.1.0"
edition = "2021"
publish = false

[dependencies]
base64 = "*"
flate2 = "*"
serde = { version = "*", features = ["derive"] }
serde_json = "*"
serde_dynamo = "*"
tokio = { version = "*", features = ["rt", "macros"] }
aws-config = "*"
aws-sdk-dynamodb = "*"
aws-sdk-s3 = "*"
ndarray = "*"
ndarray-interp = "*"
