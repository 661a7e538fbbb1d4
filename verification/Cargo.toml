[package]
name = "galactic_neural_network"
version = "0.1.0"
edition = "2021"
publish = false

[dependencies]
solana-program = "1.18"
