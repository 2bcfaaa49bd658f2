[package]
name = "tauri_ohos"
version = "0.1.0"
edition = "2021"
publish = false

[dependencies]
regex = "1"
sublime_fuzzy = "0.7"
serde = { version = "1", features = ["derive"] }
serde_json = "1"
json5 = "0.4"
toml_edit = "0.22"
walkdir = "2"
clap = { version = "4", features = ["derive", "env"] }
log = "0.4"
anyhow = "1"
muda = "*"
