[package]
name = "watl"
version = "0.1.0"
edition = "2021"
publish = false

[dependencies]
whatlang = "*"
actix-web = "*"
async-graphql = "*"
async-graphql-actix-web = "*"
clap = { version = "*", features = ["derive"] }
env_logger = "*"
log = "*"
sqlx = { version = "*", default-features = false, features = ["sqlite", "runtime-tokio"] }

[dev-dependencies]
serde_json = "*"
