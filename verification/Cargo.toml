[package]
name = "pretok"
version = "0.1.0"
edition = "2021"
publish = false

[dependencies]
strcursor = "0.2"
libfuzzer-sys = "0.4"
