[package]
name = "mpc_ristretto"
version = "0.1.0"
edition = "2021"
publish = false

[dependencies]
curve25519-dalek = { version = "4", features = ["rand_core"] }
rand_core = { version = "0.6", features = ["getrandom"] }
rand = "0.8"
clap = { version = "4", features = ["derive"] }
colored = "2"
