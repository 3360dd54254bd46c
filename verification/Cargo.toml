[package]
name = "scip_scan"
version = "0.1.0"
edition = "2021"
publish = false

[dependencies]
scip = "*"
protobuf = "*"
