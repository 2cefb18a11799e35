[package]
name = "miden_frontend"
version = "0.1.0"
edition = "2021"
publish = false

[dependencies]
cranelift-entity = "0.104"
gimli = "0.28"
log = "0.4"
miden-core = "0.8"
miden-processor = "0.8"
wasmparser = "0.118"
