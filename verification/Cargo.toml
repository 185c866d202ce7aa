[package]
name = "hypervisor"
version = "0.1.0"
edition = "2021"
publish = false

[dependencies]
chrono = { version = "0.4", default-features = false, features = ["clock"] }
libc = "0.2"
remain = "0.2"
serde = { version = "1", features = ["derive"] }
thiserror = "1"
