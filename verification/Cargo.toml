[package]
name = "gator"
version = "0.1.0"
edition = "2021"
publish = false

[dependencies]
anyhow = "1"
arboard = { version = "3", default-features = false }
async-trait = "0.1"
bytemuck = { version = "1", features = ["derive"] }
cosmic-text = { version = "0.12", default-features = false, features = ["std", "swash"] }
crossterm = { version = "0.27", default-features = false, features = ["bracketed-paste", "events"] }
pollster = "0.3"
portable-pty = "0.8"
serde = { version = "1", features = ["derive"] }
thiserror = "1"
tokio = { version = "1", features = ["macros", "rt-multi-thread", "sync"] }
toml = "0.8"
vte = "0.13"
winit = { version = "0.29", default-features = false, features = ["x11", "rwh_06"] }
