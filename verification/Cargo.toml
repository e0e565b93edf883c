[package]
name = "price_update"
version = "0.1.0"
edition = "2021"
publish = false

[dependencies]
arrayref = "0.3"
solana-program = "1.18"
thiserror = "1"
