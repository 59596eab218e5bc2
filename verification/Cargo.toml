[package]
name = "flow_ngin"
version = "0.1.0"
edition = "2021"
publish = false

[dependencies]
bytemuck = { version = "1", features = ["derive"] }
cgmath = "0.18"
log = "0.4"
wgpu = "*"
