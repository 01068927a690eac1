[package]
name = "netrender"
version = "0.1.0"
edition = "2021"
publish = false

[dependencies]
tracing = "*"
vello = "*"
vello_cpu = "*"
vello_hybrid = "*"
wgpu = "*"
