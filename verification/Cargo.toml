[package]
name = "malachite_reth"
version = "0.1.0"
edition = "2021"
publish = false

[dependencies]
prost = "0.13"
bytes = "1"
tokio = { version = "1", default-features = false, features = ["sync", "rt"] }
tracing = { version = "0.1", default-features = false }
eyre = "0.6"
informalsystems-malachitebft-core-types = "*"
informalsystems-malachitebft-signing-ed25519 = "*"
informalsystems-malachitebft-proto = "*"
informalsystems-malachitebft-codec = "*"
