[package]
name = "danake"
version = "0.1.0"
edition = "2021"
publish = false

[dependencies]
bulletproofs = "=3.0.1"
byteorder = "=1.5.0"
chrono = "=0.4.45"
curve25519-dalek-ng = "=3.0.3"
merlin = "=2.0.1"
rand_core = "=0.5.1"
zkp = "=0.8.0"

[dev-dependencies]
rand = "=0.7.3"
