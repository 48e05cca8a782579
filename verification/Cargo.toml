[package]
name = "copr_endpoint"
version = "0.1.0"
edition = "2021"
publish = false

[dependencies]
futures = "0.1"
futures-cpupool = "0.1"
mio = "0.6"
protobuf = "2"
