[package]
name = "rapidraw_cli"
version = "0.1.0"
edition = "2021"
publish = false

[dependencies]
fern = "0.7"
image = { version = "0.25", default-features = false, features = ["jpeg", "png", "webp", "tiff"] }
log = "0.4"
serde = { version = "1", features = ["derive"] }
serde_json = "1"
tokio = { version = "1", features = ["sync"] }
