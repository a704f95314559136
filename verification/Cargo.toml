[package]
name = "turbo_tasks"
version = "0.1.0"
edition = "2021"
publish = false

[dependencies]
any_key = "*"
anyhow = "1"
async-std = "1"
chashmap = "2.2"
