[package]
name = "renderer"
version = "0.1.0"
edition = "2021"
publish = false

[dependencies]
ktx2 = "=0.5.0"
ruzstd = "=0.9.1"
serde = { version = "=1.0.229", features = ["derive"] }
serde_json = "=1.0.154"
quick-xml = "=0.42.0"
draco-core = "=2.3.3"
