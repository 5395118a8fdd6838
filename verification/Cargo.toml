[package]
name = "jj-hooks"
version = "0.3.12"
edition = "2021"
publish = false

[dependencies]
toml = "*"
clap = { version = "4", features = ["derive", "env"] }
dialoguer = "*"
tracing = "*"
tracing-subscriber = { version = "*", features = ["env-filter", "fmt"] }
