[package]
name = "mado"
version = "0.1.0"
edition = "2021"
publish = false

[dependencies]
unicode-width = "0.2"
rmpv = "1"
anyhow = "1"
clap = { version = "4", features = ["derive"] }
serde = { version = "1", features = ["derive"] }
toml = "*"
tracing = "0.1"
tracing-subscriber = { version = "0.3", features = ["env-filter"] }
winit = "0.30"
wgpu = "*"
glyphon = "*"
pollster = "0.4"
bytemuck = { version = "1", features = ["derive"] }
objc2 = "*"
objc2-app-kit = "*"
objc2-foundation = "*"
