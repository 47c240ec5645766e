[package]
name = "dynamodb_expression"
version = "0.1.0"
edition = "2021"
publish = false

[dependencies]
anyhow = "1"
aws-sdk-dynamodb = { version = "1", default-features = false }
thiserror = "1"
