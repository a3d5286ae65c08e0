[package]
name = "fee_scheduler"
version = "0.1.0"
edition = "2021"
publish = false

[dependencies]
anchor-lang = "=1.2.1"
anchor-spl = "=1.2.1"
getrandom = "=0.4.3"
solana-sha256-hasher = { version = "=3.1.0", features = ["sha2"] }
spl-token-2022-interface = "=2.1.0"
