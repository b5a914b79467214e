[package]
name = "vent_engine"
version = "0.1.0"
edition = "2021"
publish = false

[dependencies]
ash = "=0.38.0"
bytemuck = "=1.25.2"
colored = "=2.2.0"
image = { version = "0.25", default-features = false }
log = "=0.4.35"
ordered-float = "=4.6.0"
raw-window-handle = "0.6"
serde = { version = "=1.0.229", features = ["derive"] }
serde_json = "=1.0.154"
spirv = "=0.3.0"
