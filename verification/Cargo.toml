[package]
name = "elgamal_ot"
version = "0.1.0"
edition = "2021"
publish = false

[dependencies]
openssl = "0.10"
hkdf = "0.12"
sha2 = "0.10"
hex = "0.4"
