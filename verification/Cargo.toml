[package]
name = "ferrinx"
version = "0.1.0"
edition = "2021"
publish = false

[dependencies]
base64 = "0.22"
sha2 = "0.10"
rand = "*"
uuid = { version = "1", features = ["v4", "serde"] }
bcrypt = "*"
lru = "*"
hex = "*"
serde = { version = "1", features = ["derive"] }
serde_json = "1"
toml = "*"
thiserror = "*"
clap = { version = "4", features = ["derive"] }
tokio = { version = "1", features = ["full"] }
reqwest = { version = "0.12", default-features = false, features = ["json", "multipart", "rustls-tls", "stream"] }
dirs = "*"
comfy-table = "*"
chrono = { version = "0.4", features = ["serde"] }
config = { version = "*", default-features = false, features = ["toml"] }
shellexpand = "*"
tracing = "*"
tracing-subscriber = { version = "*", features = ["env-filter", "json"] }
ndarray = "*"
image = { version = "*", default-features = false, features = ["png", "jpeg"] }
async-trait = "*"
tempfile = "*"
tokio-util = { version = "*", features = ["io"] }
atty = "*"
rpassword = "*"
serde_yaml = "*"
