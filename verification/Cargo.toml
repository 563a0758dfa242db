[package]
name = "ikigai-module"
version = "0.3.0"
edition = "2021"
publish = false

[dependencies]
ikigai-core = "=0.1.70"
async-trait = "0.1"
futures = "0.3"
libc = "0.2"
postcard = { version = "1", features = ["alloc"] }
serde = { version = "1", features = ["derive"] }
serde_json = "1"
