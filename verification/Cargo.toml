[package]
name = "fastllm"
version = "0.1.0"
edition = "2021"
publish = false

[dependencies]
async-trait = "=0.1.92"
autoagents-llm = { version = "=0.4.0", features = ["full"] }
autoagents-llamacpp = "=0.4.0"
serde = { version = "=1.0.229", features = ["derive"] }
serde_json = "=1.0.154"
thiserror = "=2.0.21"
tokio = { version = "=1.54.1", features = ["rt", "macros", "time", "sync"] }
