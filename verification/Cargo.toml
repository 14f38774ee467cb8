[package]
name = "correspondent"
version = "0.1.0"
edition = "2021"
publish = false

[dependencies]
textwrap = "0.16"
chrono = "0.4"
ratatui = "0.29"
crossterm = "0.28"
tokio = { version = "1", features = ["rt-multi-thread", "macros", "sync", "time"] }
reqwest = { version = "0.12", default-features = false, features = ["json", "rustls-tls"] }
graphql_client = "0.14"
serde = { version = "1", features = ["derive"] }
image = { version = "0.25", default-features = false, features = ["png", "jpeg"] }
ratatui-image = "8"
