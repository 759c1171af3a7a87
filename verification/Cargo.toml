[package]
name = "ava-platformvm"
version = "0.1.0"
edition = "2021"
publish = false

[dependencies]
async-trait = "0.1"
bech32 = "0.11"
blst = "0.3"
bs58 = "0.5"
bytes = "1"
chrono = { version = "0.4", default-features = false, features = ["std"] }
hex = "0.4"
lru = "0.12"
num-bigint = "0.4"
parking_lot = "0.12"
prost = "0.13"
serde = { version = "1", features = ["derive"] }
serde_json = "1"
sha2 = "0.10"
thiserror = "2"
tokio = { version = "1", features = ["macros", "rt", "sync", "time"] }
tokio-util = "0.7"
tracing = "0.1"
