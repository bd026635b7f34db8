[package]
name = "alerter"
version = "0.3.1"
edition = "2021"
publish = false

[dependencies]
chrono = "=0.4.45"
clap = { version = "=3.2.25", features = ["derive", "env"] }
dotenv = "=0.15.0"
pretty_env_logger = "=0.4.0"
log = "=0.4.35"
anyhow = "=1.0.104"
handlebars = "=4.5.0"
serde = { version = "=1.0.229", features = ["derive"] }
serde_json = "=1.0.154"
tokio = { version = "=1.54.1", features = ["macros", "rt-multi-thread"] }
warp = "=0.3.7"
teloxide = { version = "=0.9.2", default-features = false, features = ["rustls"] }
matrix-sdk = { version = "=0.5.0", default-features = false, features = ["rustls-tls", "markdown"] }
takecell = "=0.1.1"
