[package]
name = "easyfirewall"
version = "1.0.0"
edition = "2021"
publish = false

[dependencies]
chrono = { version = "0.4", features = ["serde"] }
serde = { version = "1", features = ["derive"] }
serde_json = "1"
serde_yaml = "0.9"
thiserror = "1"
tokio = { version = "1.42", features = ["full"] }
async-trait = "0.1"
crossterm = "0.28"
ratatui = "0.29"
libc = "0.2"
anyhow = "1"
