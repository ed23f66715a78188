[package]
name = "cipherpay_anchor"
version = "0.1.0"
edition = "2021"
publish = false

[dependencies]
anchor-lang = "=1.2.0"
anchor-spl = "=1.2.0"
groth16-solana = "=0.2.0"
sha2 = "=0.11.0"
solana-instructions-sysvar = "=3.0.1"
