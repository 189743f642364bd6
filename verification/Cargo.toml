[package]
name = "index_catalog"
version = "0.1.0"
edition = "2021"
publish = false

[dependencies]
actix-web = { version = "4", default-features = false, features = ["macros"] }
env_logger = "*"
reqwest = { version = "0.11", default-features = false, features = ["json"] }
serde = { version = "*", features = ["derive"] }
serde_json = "*"
