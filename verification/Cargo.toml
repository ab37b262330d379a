[package]
name = "r2nova"
version = "0.1.0"
edition = "2021"
publish = false

[dependencies]
uuid = { version = "1", features = ["v4"] }
serde = { version = "1", features = ["derive"] }
serde_json = "1"
tokio = { version = "1", features = ["fs", "io-util", "sync", "rt", "macros", "time"] }
chrono = { version = "0.4", features = ["serde"] }
bytes = "1"
futures-util = "0.3"
thiserror = "2"
tracing = "0.1"
dirs = "6"
keyring-core = "*"
aws-config = { version = "1", default-features = false, features = ["rt-tokio", "behavior-version-latest"] }
aws-sdk-s3 = { version = "1", default-features = false, features = ["rt-tokio", "behavior-version-latest"] }
