[package]
name = "atc"
version = "0.1.0"
edition = "2021"
publish = false

[dependencies]
color-eyre = "0.6"
crossterm = "0.28"
rand = "0.9"
ratatui = "0.29"
thiserror = "2"
tracing = "0.1"
tracing-subscriber = "0.3"
