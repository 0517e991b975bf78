[package]
name = "rusted_iron"
version = "0.1.0"
edition = "2021"
publish = false

[dependencies]
base64 = "0.22"
bcrypt = "*"
chrono = { version = "0.4", features = ["serde"] }
env_logger = "*"
gotham = "0.7"
log = "0.4"
objectid = "*"
r2d2 = "*"
redis = { version = "*", features = ["r2d2"] }
reqwest = { version = "0.12", default-features = false, features = ["blocking"] }
serde = { version = "1", features = ["derive"] }
serde_json = "1"
