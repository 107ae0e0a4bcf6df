[package]
name = "rbatis"
version = "0.1.0"
edition = "2021"
publish = false

[dependencies]
dashmap = "=4.0.2"
log = "=0.4.35"
proc-macro2 = "=1.0.107"
quote = "=1.0.47"
serde_json = "=1.0.154"
syn = { version = "=1.0.109", features = ["full"] }
unicode-ident = "=1.0.27"
