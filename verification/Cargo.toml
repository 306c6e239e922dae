[package]
name = "commander"
version = "0.1.0"
edition = "2021"
publish = false

[dependencies]
serde = { version = "=1.0.229", features = ["derive"] }
serde_json = "=1.0.154"
reqwest = { version = "=0.13.5", default-features = false, features = ["json", "multipart"] }
html2text = "=0.17.4"
glob = "=0.3.4"
regex = "=1.13.1"
chrono = "=0.4.45"
uuid = { version = "=1.29.0", features = ["v4"] }
tokio = { version = "=1.54.1", features = ["full"] }
async-trait = "=0.1.92"
thiserror = "=2.0.21"
log = "=0.4.35"
env_logger = "=0.11.11"
dotenvy = "=0.15.7"
clap = { version = "=4.6.7", features = ["derive"] }
ignore = "=0.4.34"
sqlx = { version = "=0.8.6", default-features = false, features = ["postgres", "runtime-tokio", "uuid", "chrono", "json", "macros"] }
tavily = "*"
rmcp = { version = "*", features = ["client", "transport-child-process"] }
