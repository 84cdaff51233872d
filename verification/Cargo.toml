[package]
name = "blockchain"
version = "0.1.0"
edition = "2021"
publish = false

[dependencies]
p256 = "0.13"
sha2 = "0.10"
rand_core = { version = "0.6", features = ["getrandom"] }
hex = "0.4"
serde = { version = "1", features = ["derive"] }
actix-web = "4"
log = "0.4"
env_logger = "0.11"
