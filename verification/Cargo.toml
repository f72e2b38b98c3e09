[package]
name = "osiris_core"
version = "0.1.0"
edition = "2021"
publish = false

[dependencies]
lzma-rs = "*"
mlua = { version = "0.9", features = ["lua54", "vendored"] }
rusqlite = { version = "*", features = ["bundled"] }
