[package]
name = "protect_ffi"
version = "0.1.0"
edition = "2021"
publish = false

[dependencies]
cipherstash-client = { version = "=0.28.0", default-features = false }
hex = "=0.4.3"
libc = "=0.2.191"
once_cell = "=1.21.4"
serde = { version = "=1.0.229", features = ["derive"] }
serde_json = "=1.0.154"
thiserror = "=1.0.69"
tokio = { version = "=1.54.1", features = ["rt-multi-thread"] }
