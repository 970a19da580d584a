[package]
name = "pool_sync"
version = "0.1.0"
edition = "2021"
publish = false

[dependencies]
alloy = { version = "=1.8.3", default-features = false, features = ["std", "reqwest", "dyn-abi", "network", "providers", "rpc-types", "sol-types"] }
anyhow = "1"
dotenv = "0.15"
indicatif = { version = "0.18", default-features = false }
rand = "=0.8.8"
serde = { version = "=1.0.229", features = ["derive"] }
serde_json = "=1.0.154"
tokio = { version = "=1.54.1", features = ["rt-multi-thread", "macros", "time"] }
uniswap_v3_math = { version = "=0.6.2", default-features = false }
