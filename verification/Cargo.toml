[package]
name = "r1cs"
version = "0.1.0"
edition = "2021"
publish = false

[dependencies]
curve25519-dalek = { version = "4", features = ["digest", "rand_core"] }
merlin = "3"
sha3 = "0.10"
subtle = "2"
rand = "0.8"
clear_on_drop = "0.2"
