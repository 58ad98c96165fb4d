[package]
name = "transcribe"
version = "0.1.0"
edition = "2021"
publish = false

[dependencies]
aws-config = { version = "*", features = ["behavior-version-latest"] }
aws-sdk-s3 = "*"
aws-sdk-sfn = "*"
aws_lambda_events = "*"
clap = { version = "*", features = ["derive"] }
dotenv = "*"
glob = "*"
lambda_runtime = "*"
serde = { version = "*", features = ["derive"] }
tokio = { version = "*", features = ["macros", "rt-multi-thread"] }
tracing-subscriber = { version = "*", features = ["json"] }
