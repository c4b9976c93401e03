[package]
name = "load0"
version = "0.1.0"
edition = "2021"
publish = false

[dependencies]
url = "=2.5.8"
sha3 = "=0.12.0"
hex = "=0.4.3"
serde = { version = "*", features = ["derive"] }
serde_json = "*"
tokio = { version = "*", features = ["full"] }
axum = "=0.8.9"
reqwest = { version = "*", default-features = false, features = ["json"] }
tower = { version = "*", features = ["util"] }
tower-http = { version = "*", features = ["cors", "limit", "timeout"] }
tokio-util = { version = "*", features = ["io"] }
bundler = "*"
futures = "*"
anyhow = "*"
dotenv = "*"
ureq = { version = "*", default-features = false }
planetscale-driver = "=0.5.1"
aws-config = "*"
aws-sdk-s3 = "*"
