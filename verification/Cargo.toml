[package]
name = "better-resource-monitor"
version = "0.1.0"
edition = "2021"
publish = false

[dependencies]
image = { version = "0.24", default-features = false, features = ["png"] }
resvg = "*"
rusttype = "0.9"
font-kit = "*"
sysinfo = "*"
nvml-wrapper = "*"
