[package]
name = "wakili_backend"
version = "0.1.0"
edition = "2021"
publish = false

[dependencies]
serde_json = "=1.0.151"
serde = { version = "=1.0.229", features = ["derive"] }
candid = "=0.10.37"
ic-cdk = "=0.17.2"
ic-cdk-macros = "=0.17.2"
getrandom = { version = "=0.2.17", features = ["custom"] }
