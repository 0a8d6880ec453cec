[package]
name = "cantus"
version = "0.1.0"
edition = "2021"
publish = false

[dependencies]
base64 = "=0.23.1"
bytemuck = { version = "=1.25.2", features = ["derive"] }
dirs = "=7.0.0"
fastrand = "=2.5.0"
image = { version = "=0.25.10", default-features = false, features = ["png", "jpeg"] }
kmeans_colors = { version = "=0.7.1", features = ["palette_color"] }
palette = "=0.7.7"
parking_lot = "=0.12.5"
raw-window-handle = "=0.6.2"
serde = { version = "=1.0.229", features = ["derive"] }
serde_json = "=1.0.151"
sha2 = "=0.11.0"
thiserror = "=2.0.21"
time = "=0.3.55"
tracing = "=0.1.44"
tracing-subscriber = { version = "=0.3.23", features = ["env-filter"] }
ureq = "=3.4.2"
url = "=2.5.8"
wayland-client = { version = "=0.31.15", features = ["system", "dlopen"] }
wayland-protocols = { version = "=0.32.13", features = ["client"] }
wayland-protocols-wlr = { version = "=0.3.12", features = ["client"] }
webbrowser = "=1.2.4"
wgpu = "=30.0.1"
wgpu_text = "=30.0.1"
