[package]
name = "tailcall"
version = "0.1.0"
edition = "2021"
publish = false

[dependencies]
anyhow = "1"
async-graphql = { version = "6", features = ["dynamic-schema"] }
async-trait = "0.1"
hyper = { version = "0.14", features = ["server", "http1", "tcp"] }
indexmap = "2"
log = "0.4"
serde_json = "1"
