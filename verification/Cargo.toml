[package]
name = "figma_html"
version = "0.1.0"
edition = "2021"
publish = false

[dependencies]
anyhow = "1"
clap = { version = "4", features = ["derive"] }
html-escape = "0.2"
indexmap = { version = "2", features = ["serde"] }
itertools = "0.10"
lightningcss = { version = "1.0.0-alpha.40", default-features = false }
serde = { version = "1", features = ["derive"] }
serde_json = "1"
typeshare = "1"
