[package]
name = "igrep"
version = "1.2.0"
edition = "2021"
publish = false

[dependencies]
anyhow = "1"
clap = { version = "4", features = ["derive", "env"] }
crossterm = "0.27"
grep = "0.3"
ignore = "0.4"
itertools = "0.12"
ratatui = "0.26"
strum = { version = "0.26", features = ["derive"] }
strum_macros = "0.26"
syntect = { version = "5", default-features = false, features = ["default-fancy"] }
which = "6"
