[package]
name = "r_agent"
version = "0.1.0"
edition = "2021"
publish = false

[dependencies]
tiktoken-rs = "*"
serde_json = "*"
llm = { version = "*", default-features = false, features = ["openai"] }
tokio = { version = "*", features = ["rt", "rt-multi-thread", "macros"] }
anyhow = "*"
serde = { version = "*", features = ["derive"] }
serde_yml = "*"
tracing = "*"
tracing-subscriber = { version = "*", features = ["env-filter"] }
