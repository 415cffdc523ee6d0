[package]
name = "mycloud"
version = "0.1.0"
edition = "2021"
publish = false

[dependencies]
candid = "=0.10.39"
ciborium = "=0.2.2"
hex = "=0.4.3"
ic-cdk = "=0.17.2"
ic-cdk-timers = "=0.11.1"
serde = { version = "=1.0.229", features = ["derive"] }
serde_bytes = "=0.11.19"
sha2 = "=0.10.9"
