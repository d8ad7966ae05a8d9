[package]
name = "actix_web_auth"
version = "0.1.0"
edition = "2021"
publish = false

[dependencies]
jsonwebtoken = "9"
base64 = "0.22"
serde_json = "1"
serde = { version = "1", features = ["derive"] }
serde_yaml = "0.9"
actix-web = { version = "4", default-features = false, features = ["macros"] }
reqwest = { version = "0.12", default-features = false, features = ["json"] }
log = "0.4"
anyhow = "1"
syn = { version = "2", features = ["full"] }
quote = "1"
proc-macro2 = "1"
