[package]
name = "quick_repertoire"
version = "0.1.0"
edition = "2021"
publish = false

[dependencies]
regex = "1"
scraper = "*"
chrono = "0.4"
comfy-table = "*"
serde = { version = "1", features = ["derive"] }
serde_json = "1"
tokio = { version = "1", features = ["macros", "rt-multi-thread", "time"] }
reqwest = { version = "*", default-features = false, features = ["rustls-tls"] }
chromiumoxide = "*"
futures = "0.3"
async-trait = "*"
clap = { version = "4", features = ["derive"] }
clap_complete = "4"
dialoguer = "*"
indicatif = "*"
env_logger = "*"
log = "0.4"
rusqlite = "*"
thiserror = "*"
