[package]
name = "vault_planner"
version = "0.1.0"
edition = "2021"
publish = false

[dependencies]
chrono = "0.4"
markdown = "*"
thiserror = "1"
yaml-rust = "0.4"
