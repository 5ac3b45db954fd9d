[package]
name = "indexer_grpc_data_service"
version = "0.1.0"
edition = "2021"
publish = false

[dependencies]
anyhow = "1"
futures = "0.3"
prost = "0.12"
redis = { version = "0.22", features = ["tokio-comp", "connection-manager"] }
tokio = { version = "1", features = ["rt-multi-thread", "sync", "time", "macros"] }
tokio-stream = "0.1"
tonic = "0.10"
tracing = "0.1"
uuid = { version = "1", features = ["v4"] }
