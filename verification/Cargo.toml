[package]
name = "multipart_uploader"
version = "0.1.0"
edition = "2021"
publish = false

[dependencies]
anyhow = "1"
aws-config = { version = "*", default-features = false }
aws-sdk-s3 = { version = "*", default-features = false }
aws-smithy-types = { version = "*", features = ["rt-tokio"] }
clap = { version = "4", features = ["derive"] }
tokio = { version = "1", features = ["full"] }
walkdir = "2"
