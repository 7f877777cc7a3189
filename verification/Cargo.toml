[package]
name = "swirl"
version = "0.1.0"
edition = "2021"
publish = false

[dependencies]
diesel = { version = "2", features = ["postgres", "r2d2", "serde_json"] }
serde_json = "1"
threadpool = "1"
