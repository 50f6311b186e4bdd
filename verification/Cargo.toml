[package]
name = "intricate"
version = "0.1.0"
edition = "2021"
publish = false

[dependencies]
bytemuck = "=1.25.2"
futures-intrusive = "=0.4.2"
opencl-sys = "=0.2.2"
opencl3 = "=0.8.1"
rand = "=0.8.8"
savefile = "=0.20.6"
savefile-derive = "=0.20.6"
wgpu = "=0.13.1"
