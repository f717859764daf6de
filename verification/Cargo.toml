[package]
name = "contract_index"
version = "0.1.0"
edition = "2021"
publish = false

[dependencies]
md5 = "*"
serde = { version = "*", features = ["derive"] }
serde_json = "*"
duckdb = "*"
foundry-compilers = { version = "*", default-features = false }
alloy-json-abi = "*"
semver = "*"
tempfile = "*"
tokio = { version = "*", features = ["rt-multi-thread", "macros", "fs", "sync"] }
walkdir = "*"
eyre = "*"
