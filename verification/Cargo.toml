[package]
name = "swarm_markdown"
version = "0.1.0"
edition = "2021"
publish = false

[dependencies]
regex = "=1.13.1"
markdown = { version = "=1.0.0", features = ["serde"] }
nanoid = "=0.4.0"
yrs = "=0.28.0"
serde = { version = "=1.0.229", features = ["derive"] }
serde_json = "=1.0.154"
thiserror = "=2.0.21"
async-trait = "=0.1.92"
sea-orm-migration = { version = "=2.0.4", default-features = false }
