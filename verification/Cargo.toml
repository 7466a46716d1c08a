[package]
name = "kod"
version = "0.1.0"
edition = "2021"
publish = false

[dependencies]
capstone = "*"
winapi = { version = "0.3", features = ["memoryapi", "winnt"] }
