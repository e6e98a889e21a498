[package]
name = "cypher_liquidator"
version = "0.1.0"
edition = "2021"
publish = false

[dependencies]
anchor-lang = "0.26"
arrayref = "0.3"
bytemuck = "=1.25.2"
clap = { version = "3", features = ["derive"] }
dashmap = "=5.5.3"
jet-proto-math = "=1.0.6"
log = "0.4"
serde = { version = "1", features = ["derive"] }
serde_json = "1"
serum_dex = "=0.5.4"
solana-sdk = "=1.14.29"
spl-token = "=3.5.0"
tokio = { version = "1", features = ["full"] }
