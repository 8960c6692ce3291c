[package]
name = "fluxframe"
version = "0.1.0"
edition = "2021"
publish = false

[dependencies]
parking_lot = "0.12"
pollster = "0.4"
serde = { version = "1", features = ["derive"] }
serde_json = "1"
thiserror = "2"
toml = "*"
tracing = "0.1"
ort = { version = "2.0.0-rc.11", default-features = false, features = ["std", "load-dynamic"] }
openvino = { version = "*", features = ["runtime-linking"] }
wgpu = { version = "29", default-features = false, features = ["std", "vulkan", "wgsl"] }
