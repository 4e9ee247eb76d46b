[package]
name = "threei_dispatch_bench"
version = "0.1.0"
edition = "2021"
publish = false

[dependencies]
anyhow = "1"
dashmap = "=6.2.1"
libc = "0.2"
parking_lot = "0.12"
wasmtime = { version = "=36.0.20", default-features = false, features = ["std", "runtime", "cranelift", "wat"] }
