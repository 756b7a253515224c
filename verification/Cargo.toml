[package]
name = "neesy"
version = "0.1.0"
edition = "2021"
publish = false

[dependencies]
linked_hash_set = "0.1"
