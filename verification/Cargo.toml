[package]
name = "page_rewriter"
version = "0.1.0"
edition = "2021"
publish = false

[dependencies]
anyhow = "1"
clap = { version = "4", features = ["derive"] }
dirs = "*"
futures-util = "0.3"
reqwest = "*"
serde = { version = "1", features = ["derive"] }
serde_json = "1"
thirtyfour = "*"
tokio = { version = "1", features = ["macros", "rt-multi-thread"] }
tokio-stream = "0.1"
