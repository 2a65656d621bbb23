[package]
name = "inference_bridge"
version = "0.1.0"
edition = "2021"
publish = false

[dependencies]
image = { version = "=0.25.10", default-features = false }
jni = { version = "0.21", default-features = false }
tokio = { version = "1", default-features = false, features = ["rt", "time", "macros"] }
anyhow = "1"
log = "0.4"
android_logger = { version = "0.15", default-features = false }
