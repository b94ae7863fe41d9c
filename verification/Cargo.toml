[package]
name = "liquid_glass"
version = "0.1.0"
edition = "2021"
publish = false

[dependencies]
cocoa = { version = "=0.27.0", default-features = false }
dispatch = "=0.2.0"
log = "=0.4.34"
objc = "=0.2.7"
serde = { version = "=1.0.229", features = ["derive"] }
serde_repr = "=0.1.21"
thiserror = "=2.0.21"
