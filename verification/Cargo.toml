[package]
name = "lock_manager"
version = "0.1.0"
edition = "2021"
publish = false

[dependencies]
dashmap = "6.1"
