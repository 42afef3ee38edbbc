[package]
name = "caducus"
version = "0.1.0"
edition = "2021"
publish = false

[dependencies]
log = "0.4"
tokio = { version = "1", default-features = false, features = ["rt", "sync", "time", "macros"] }
