[package]
name = "wm_receiver"
version = "0.1.0"
edition = "2021"
publish = false

[dependencies]
chrono = { version = "*", features = ["serde"] }
url = { version = "*", features = ["serde"] }
rocket = "*"
tokio = { version = "*", features = ["sync"] }
serde = { version = "*", features = ["derive"] }
serde_json = "*"
serde_yaml = "*"
gray_matter = "*"
vfs = "*"
uuid = { version = "*", features = ["serde", "v4"] }
