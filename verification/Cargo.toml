[package]
name = "granaryd"
version = "0.1.0"
edition = "2021"
publish = false

[dependencies]
dirs = "*"
semver = "*"
tokio = { version = "*", features = ["full"] }
serde = { version = "*", features = ["derive"] }
serde_json = "*"
toml = "*"
chrono = { version = "*", features = ["serde"] }
anyhow = "*"
reqwest = { version = "*", default-features = false, features = ["json"] }
sqlx = { version = "*", default-features = false, features = ["runtime-tokio", "sqlite"] }
