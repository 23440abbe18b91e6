[package]
name = "hashkey_did"
version = "0.1.0"
edition = "2021"
publish = false

[dependencies]
ic-cdk = "=0.5.7"
ic-cdk-macros = "=0.5.7"
cap-sdk = "=0.2.4"
compile-time-run = "=0.2.12"
candid = "=0.7.18"
serde = "=1.0.229"
