[package]
name = "notegraph"
version = "0.1.0"
edition = "2021"
publish = false

[dependencies]
matter = "=0.1.0-alpha4"
anyhow = "=1.0.104"
async-trait = "=0.1.92"
colored = "=3.1.1"
crossterm = "=0.29.0"
skim = "=5.7.4"
tokio = { version = "=1.53.2", features = ["rt", "rt-multi-thread", "macros", "sync"] }
