[package]
name = "clippy2"
version = "0.1.0"
edition = "2021"
publish = false

[dependencies]
base64 = "0.22"
image = { version = "0.25", default-features = false, features = ["bmp", "gif", "jpeg", "png", "tiff", "webp"] }
imagequant = "4"
lodepng = "3"
rusqlite = { version = "0.32", features = ["bundled"] }
serde = { version = "1", features = ["derive"] }
lazy_static = "1"
tokio = { version = "1", features = ["rt-multi-thread"] }
cocoa = "0.26"
objc = "0.2"
libc = "0.2"
