[package]
name = "interlock"
version = "0.1.0"
edition = "2021"
publish = false

[dependencies]
ink = "=4.3.0"
solana-program = "=2.3.0"
thiserror = "=1.0.69"
