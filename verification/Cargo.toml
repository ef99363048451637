[package]
name = "canvas_graph"
version = "0.1.0"
edition = "2021"
publish = false

[dependencies]
serde = { version = "=1.0.229", features = ["derive"] }
serde_json = "=1.0.154"
uuid = { version = "=1.29.0", features = ["v4"] }
chrono = "=0.4.45"
ureq = { version = "=2.12.1", default-features = false, features = ["json"] }
tiny_http = "=0.12.0"
image = { version = "*", default-features = false, features = ["png", "jpeg", "gif", "webp", "bmp"] }
