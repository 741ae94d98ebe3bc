[package]
name = "jxl_wgpu_decode"
version = "0.1.0"
edition = "2021"
publish = false

[dependencies]
bytemuck = { version = "=1.25.2", features = ["min_const_generics"] }
thiserror = "=2.0.21"
wgpu = { version = "=30.0.1", default-features = false }
