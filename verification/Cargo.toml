[package]
name = "agent_dashboard"
version = "0.1.0"
edition = "2021"
publish = false

[dependencies]
chrono = "*"
serde_json = "*"
ratatui = "*"
crossterm = "*"
color-eyre = "*"
