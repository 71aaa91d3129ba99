[package]
name = "quartermaster"
version = "0.1.0"
edition = "2021"
publish = false

[dependencies]
async-trait = "*"
deadqueue = "*"
tokio = { version = "1", features = ["rt", "rt-multi-thread", "sync", "time", "macros"] }
