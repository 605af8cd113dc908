[package]
name = "synchronik"
version = "0.1.0"
edition = "2021"
publish = false

[dependencies]
anyhow = "*"
async-std = { version = "*", features = ["attributes"] }
chrono = "*"
dotenv = "*"
glob = "*"
gumdrop = "*"
handlebars = "*"
log = "*"
os_pipe = "*"
pretty_env_logger = "*"
reqwest = { version = "*", default-features = false, features = ["json"] }
serde = { version = "*", features = ["derive"] }
serde_json = "*"
serde_yaml = "*"
tide = "*"
url = "*"
uuid = { version = "*", features = ["v4"] }
