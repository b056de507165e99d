[package]
name = "c2zk"
version = "0.1.0"
edition = "2021"
publish = false

[dependencies]
thiserror = "=1.0.69"
wasmparser = "=0.100.0"
