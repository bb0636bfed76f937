[package]
name = "stem"
version = "0.1.0"
edition = "2021"
publish = false

[dependencies]
base64 = "0.22"
itertools = "=0.13.0"
rand = "=0.8.8"
serde_json = "=1.0.154"
walkdir = "2"
