[package]
name = "agctl"
version = "0.1.0"
edition = "2021"
publish = false

[dependencies]
anyhow = "1"
aws-config = "*"
aws-credential-types = "*"
aws-sdk-bedrockagentcore = "*"
aws-sdk-bedrockagentcorecontrol = "*"
aws-sigv4 = "*"
clap = { version = "4", features = ["derive"] }
crossterm = "*"
dirs = "*"
futures-util = "*"
serde = { version = "1", features = ["derive"] }
serde_json = "1"
serde_yaml = "*"
tokio = { version = "1", features = ["full"] }
tokio-tungstenite = "*"
toml = "*"
urlencoding = "*"
