[package]
name = "relayer"
version = "0.1.0"
edition = "2021"
publish = false

[dependencies]
anyhow = "1"
dotenv = "0.15"
ethers = "2.0"
ethers-core = "2.0"
hex-literal = "0.4"
http = "0.2"
k256 = "0.13"
rand = "0.8"
serde_json = "1"
tokio = { version = "1", features = ["macros", "rt-multi-thread", "time"] }
