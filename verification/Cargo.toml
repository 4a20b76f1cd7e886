[package]
name = "pointer_kinds"
version = "0.1.0"
edition = "2021"
publish = false

[dependencies]
json = "0.12"
proc-macro2 = { version = "1", features = ["span-locations"] }
syn = { version = "2", features = ["full"] }
