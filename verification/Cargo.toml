[package]
name = "article_board"
version = "0.1.0"
edition = "2021"
publish = false

[dependencies]
actix-files = "*"
actix-multipart = "*"
actix-web = "*"
chrono = { version = "*", default-features = false, features = ["clock"] }
env_logger = "*"
futures-util = "*"
sanitize-filename = "*"
serde = { version = "*", features = ["derive"] }
sqlx = { version = "*", default-features = false, features = ["postgres", "runtime-tokio"] }
