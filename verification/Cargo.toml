[package]
name = "group_call"
version = "0.1.0"
edition = "2021"
publish = false

[dependencies]
sha2 = "=0.10.9"
hkdf = "=0.12.4"
x25519-dalek = "=2.0.1"
rand = "=0.8.8"
