[package]
name = "safe_transfers"
version = "0.1.0"
edition = "2021"
publish = false

[dependencies]
safe-nd = "=0.11.7"
threshold_crypto = "=0.4.0"
crdts = "=4.3.0"
bincode = "=1.3.3"
serde = "1"

[dev-dependencies]
rand = "=0.7.3"
