[package]
name = "color_anyhow"
version = "0.5.0"
edition = "2021"
publish = false

[dependencies]
anyhow = "*"
ansi_term = "*"
backtrace = "*"
once_cell = "*"
tracing-error = "*"
