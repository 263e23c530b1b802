[package]
name = "oneclient_logic"
version = "0.1.0"
edition = "2021"
publish = false

[dependencies]
bytes = "=1.12.1"
tracing = "=0.1.44"
reqwest = "=0.13.5"
rfd = "=0.17.2"
