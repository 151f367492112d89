[package]
name = "jsonrpc_udp"
version = "0.1.0"
edition = "2021"
publish = false

[dependencies]
noargs = "*"
nojson = "*"
