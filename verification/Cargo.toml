[package]
name = "corepolicy_manager"
version = "0.8.0"
edition = "2021"
publish = false

[dependencies]
serde = { version = "1", features = ["derive"] }
serde_json = "1"
smallvec = "1"
libc = "0.2"
coreshift-core = "*"
