[package]
name = "lumina"
version = "0.1.0"
edition = "2021"
publish = false

[dependencies]
display-info = "0.5.10"
flume = "0.11.1"
open = "5.3.6"
rdev = "0.5.3"
serde_json = "1.0.154"
