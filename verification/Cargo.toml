[package]
name = "socks5_core"
version = "0.1.0"
edition = "2021"
publish = false

[dependencies]
anyhow = "=1.0.104"
tokio = { version = "=1.54.1", features = ["full"] }
compio = { version = "=0.19.2", features = ["macros", "dispatcher", "net", "io", "sync"] }
