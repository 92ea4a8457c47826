[package]
name = "qa_service"
version = "0.1.0"
edition = "2021"
publish = false

[dependencies]
async-trait = "=0.1.92"
dotenvy = "=0.15.7"
log = "=0.4.34"
pretty_env_logger = "=0.5.0"
sqlx = { version = "=0.9.0", default-features = false, features = ["postgres", "uuid", "runtime-tokio"] }
tokio = { version = "*", default-features = false, features = ["macros", "rt-multi-thread"] }
