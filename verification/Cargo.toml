[package]
name = "s3_api_common"
version = "0.1.0"
edition = "2021"
publish = false

[dependencies]
http = "1"
