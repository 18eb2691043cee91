[package]
name = "icp_transfer_backend"
version = "0.1.0"
edition = "2021"
publish = false

[dependencies]
candid = "*"
ic-cdk = "*"
ic-cdk-macros = "*"
ic-ledger-types = "*"
serde = { version = "*", features = ["derive"] }
