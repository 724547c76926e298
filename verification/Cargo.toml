[package]
name = "opds_catalog"
version = "0.1.0"
edition = "2021"
publish = false

[dependencies]
base64 = "0.22"
anyhow = "1"
log = "0.4"
env_logger = "*"
chrono = "0.4"
quick-xml = "*"
actix-web = { version = "4", default-features = false, features = ["macros"] }
actix-files = "*"
percent-encoding = "2"
zip = { version = "*", default-features = false, features = ["deflate"] }
rusqlite = "*"
sqlx = { version = "*", default-features = false, features = ["sqlite", "runtime-tokio"] }
async-trait = "0.1"
