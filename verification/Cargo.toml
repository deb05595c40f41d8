[package]
name = "vk-compute-bench"
version = "0.1.0"
edition = "2021"
publish = false

[dependencies]
ash = "0.38"
bytemuck = { version = "1", features = ["extern_crate_alloc"] }
gpu-allocator = { version = "0.27", default-features = false, features = ["vulkan"] }
prettytable-rs = "0.10"
rand = "0.8"
