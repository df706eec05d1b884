[package]
name = "whelk"
version = "0.1.0"
edition = "2021"
publish = false

[dependencies]
serde = { version = "=1.0.229", features = ["derive"] }
thiserror = "=1.0.69"
bincode = "=1.3.3"
base91 = "=0.1.0"
