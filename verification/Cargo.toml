[package]
name = "tonic_rpc"
version = "0.1.0"
edition = "2021"
publish = false

[dependencies]
tonic-build = "*"
proc-macro2 = "*"
