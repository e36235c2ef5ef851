[package]
name = "osmosis_indexer"
version = "0.1.0"
edition = "2021"
publish = false

[dependencies]
anyhow = "1"
axum = "0.6"
clap = { version = "4", features = ["derive"] }
futures = "0.3"
serde = { version = "1", features = ["derive"] }
sqlx = { version = "*", default-features = false, features = ["postgres", "runtime-tokio", "migrate"] }
tendermint = "*"
tendermint-rpc = { version = "*", features = ["http-client"] }
thiserror = "*"
tokio = { version = "1", features = ["full"] }
toml = "*"
