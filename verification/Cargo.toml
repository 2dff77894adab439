[package]
name = "prime"
version = "0.1.0"
edition = "2021"
publish = false

[dependencies]
crossterm = "*"
textwrap = "*"
handlebars = "*"
serde_json = "*"
serde = { version = "1", features = ["derive"] }
glob = "*"
anyhow = "*"
chrono = "*"
dirs = "*"
rustyline = "*"
tokio = { version = "1", features = ["rt-multi-thread", "macros", "time"] }
reqwest = { version = "0.12", default-features = false, features = ["stream"] }
futures = "*"
log = "*"
once_cell = "*"
toml = "*"

[dev-dependencies]
tempfile = "*"
