[package]
name = "torrent_watch"
version = "0.1.0"
edition = "2021"
publish = false

[dependencies]
anyhow = "1"
async-trait = "0.1"
chrono = "0.4"
colored = "2"
env_logger = "0.10"
log = "0.4"
lru = "0.12"
reqwest = { version = "0.11", default-features = false, features = ["json", "cookies"] }
reqwest-middleware = "0.2"
serde = { version = "1", features = ["derive"] }
serde-enum-str = "*"
structopt = "0.3"
task-local-extensions = "0.1"
tokio = { version = "1", features = ["macros", "rt-multi-thread", "time", "sync"] }
