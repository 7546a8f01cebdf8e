[package]
name = "typed_store"
version = "0.1.0"
edition = "2021"
publish = false

[dependencies]
sled = "0.34"
failure = "0.1"
slog = "2"
