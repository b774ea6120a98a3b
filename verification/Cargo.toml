[package]
name = "fvm"
version = "0.1.0"
edition = "2021"
rust-version = "1.95"
publish = false

[dependencies]
anyhow = "=1.0.104"
cid = "=0.11.3"
multihash = "=0.19.5"
multihash-codetable = { version = "=0.2.2", features = ["sha2", "blake2b"] }
num-bigint = "=0.4.8"
num-traits = "=0.2.19"
serde_json = "=1.0.154"
wasmtime = { version = "=47.0.4", default-features = false, features = ["cranelift", "runtime"] }
