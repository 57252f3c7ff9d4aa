[package]
name = "indexer-morpho"
version = "0.1.0"
edition = "2021"
publish = false

[dependencies]
alloy = { version = "1", default-features = false, features = ["std", "contract", "sol-types"] }
alloy-network = { version = "1", default-features = false }
alloy-provider = { version = "1", default-features = false, features = ["reqwest"] }
alloy-rpc-client = { version = "1", default-features = false, features = ["reqwest"] }
alloy-rpc-types-eth = { version = "1", default-features = false, features = ["std", "serde"] }
anyhow = "1"
axum = { version = "0.8", default-features = false, features = ["http1", "json", "tokio"] }
serde = { version = "1", features = ["derive"] }
tokio = { version = "1", features = ["macros", "net", "rt-multi-thread", "signal"] }
tower-http = { version = "0.6", default-features = false, features = ["trace"] }
tracing = "0.1"
