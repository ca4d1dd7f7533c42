[package]
name = "claim_pipeline"
version = "0.1.0"
edition = "2021"
publish = false

[dependencies]
secp256k1 = "0.27"
web3 = { version = "0.19", default-features = false, features = ["ws-tokio", "signing"] }
tokio = { version = "1", features = ["macros", "rt-multi-thread", "time"] }
futures = "0.3"
dotenv = "0.15"
