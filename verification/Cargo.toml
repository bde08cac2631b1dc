[package]
name = "chatgpt_term"
version = "0.1.0"
edition = "2021"
publish = false

[dependencies]
chrono = "0.4"
confy = "0.5"
crossterm = "0.25"
gumdrop = "0.8"
reqwest = { version = "0.11", features = ["blocking", "json"] }
serde = { version = "1", features = ["derive"] }
serde_json = "1"
textwrap = "0.16"
tui = "0.19"
tui-textarea = "=0.2.0"
