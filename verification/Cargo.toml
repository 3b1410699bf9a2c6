[package]
name = "shaft"
version = "0.1.0"
edition = "2021"
publish = false

[dependencies]
anyhow = "1"
chrono = "0.4"
crossterm = "0.28"
dirs = "5"
humansize = "2"
ratatui = "0.29"
ssh2 = "0.9"
ssh2-config = "*"
