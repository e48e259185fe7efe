[package]
name = "sockudo"
version = "0.1.0"
edition = "2021"
publish = false

[dependencies]
anyhow = "=1.0.104"
apalis = { version = "=0.7.4", features = ["limit"] }
apalis-redis = "=0.7.4"
async-trait = "=0.1.92"
aws-config = { version = "=1.13.0", default-features = false, features = ["rt-tokio", "behavior-version-latest"] }
aws-sdk-lambda = { version = "=1.156.0", default-features = false, features = ["rt-tokio", "behavior-version-latest"] }
axum = "=0.8.9"
dashmap = "=6.2.1"
fastwebsockets = { version = "=0.10.0", features = ["upgrade", "unstable-split", "with_axum"] }
fred = { version = "=10.1.0", features = ["subscriber-client"] }
futures = "=0.3.34"
hex = "=0.4.3"
hmac = "=0.12.1"
hyper = { version = "=1.12.0", features = ["http1", "server"] }
hyper-util = { version = "=0.1.21", features = ["tokio"] }
redis = { version = "=0.29.5", features = ["tokio-comp", "aio"] }
regex = "=1.13.1"
reqwest = { version = "=0.12.28", default-features = false, features = ["json"] }
serde = { version = "=1.0.229", features = ["derive"] }
serde_json = "=1.0.154"
sha2 = "=0.10.9"
sysinfo = "=0.33.1"
thiserror = "=2.0.21"
tokio = { version = "=1.54.1", features = ["full"] }
tower-http = { version = "=0.6.11", features = ["cors"] }
tracing = "=0.1.44"
tracing-subscriber = { version = "=0.3.23", features = ["env-filter"] }
uuid = { version = "=1.29.0", features = ["v4"] }
