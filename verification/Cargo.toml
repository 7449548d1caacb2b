[package]
name = "counter_program"
version = "0.1.0"
edition = "2021"
publish = false

[dependencies]
borsh = { version = "1.5", features = ["derive"] }
solana-program = "1.18.26"
