[package]
name = "eth_marketplace"
version = "0.1.0"
edition = "2021"
publish = false

[dependencies]
ethers = { version = "2", default-features = false }
tokio = { version = "1", default-features = false, features = ["rt-multi-thread", "macros"] }
anyhow = "1"
dotenv = "0.15"
env_logger = { version = "0.10", default-features = false }
log = "0.4"
