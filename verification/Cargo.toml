[package]
name = "chopper"
version = "0.1.0"
edition = "2021"
publish = false

[dependencies]
regex = "1"
shell-words = "1"
anyhow = "1"
serde = { version = "1", features = ["derive"] }
serde_json = "1"
toml = "*"
which = "*"
directories = "*"
fs-err = "*"
bincode = "1"
rhai = "*"
crossterm = "*"
ratatui = "*"
zbus = "5"
ureq = "3"
quick-xml = "*"
duct = "*"
cap-std = "*"
http = "1"
