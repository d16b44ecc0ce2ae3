[package]
name = "rusty_planner"
version = "0.1.0"
edition = "2021"
publish = false

[dependencies]
uuid = { version = "0.8", features = ["v4", "serde"] }
serde_urlencoded = "0.7"
serde = { version = "1", features = ["derive"] }
serde_json = "1"
actix-web = "3"
actix-files = "0.5"
env_logger = "0.8"
postgres = { version = "0.19", features = ["with-uuid-0_8"] }
reqwest = { version = "0.10", features = ["json"] }
