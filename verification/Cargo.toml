[package]
name = "sulfite"
version = "0.1.0"
edition = "2021"
publish = false

[dependencies]
anyhow = "1"
aws-config = { version = "1", features = ["behavior-version-latest"] }
aws-credential-types = { version = "1", features = ["hardcoded-credentials"] }
aws-sdk-s3 = "1"
bytes = "1"
chrono = "0.4"
clap = { version = "4", features = ["derive"] }
colored = "3"
csv = "1"
filetime = "0.2"
futures = "0.3"
indicatif = "*"
log = "0.4"
thiserror = "2"
tokio = { version = "1", features = ["full"] }
tokio-retry = "0.3"
tracing = "0.1"
tracing-subscriber = { version = "0.3", features = ["env-filter", "json"] }
urlencoding = "2"
