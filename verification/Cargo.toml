[package]
name = "tagbot"
version = "0.1.0"
edition = "2021"
publish = false

[dependencies]
rand = "=0.8.8"
teloxide = { version = "=0.13.0", default-features = false, features = ["macros", "ctrlc_handler", "rustls"] }
tokio = { version = "=1.54.1", features = ["macros", "rt-multi-thread"] }
tokio-rusqlite = { version = "=0.6.1", features = ["bundled"] }
anyhow = "=1.0.104"
log = "=0.4.35"
pretty_env_logger = "=0.5.0"
dptree = "=0.3.0"
futures = "=0.3.34"
async-trait = "=0.1.92"
# Not used directly: teloxide-core depends on takecell 0.1, and its newest
# patch needs a newer compiler than the one this crate is built with.
takecell = "=0.1.1"
