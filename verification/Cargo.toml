[package]
name = "folio"
version = "0.1.0"
edition = "2021"
publish = false

[dependencies]
rust_decimal = "=1.43.0"
chrono = "=0.4.45"
sha2 = "=0.10.9"
hex = "=0.4.3"
serde_yaml = "=0.9.34"
pulldown-cmark = { version = "=0.13.6", default-features = false, features = ["html"] }
serde = { version = "=1.0.229", features = ["derive"] }
serde_json = "=1.0.154"
toml = "=1.1.8"
tera = "=1.20.1"
clap = { version = "=4.6.7", features = ["derive"] }
tokio = { version = "=1.54.1", features = ["macros", "rt-multi-thread"] }
tempfile = "=3.27.0"
open = "=5.4.5"
colored = "=3.1.1"
dialoguer = "=0.12.0"
rust-embed = { version = "=8.13.0", features = ["interpolate-folder-path"] }
eyre = "=0.6.14"
color-eyre = "=0.6.5"
lettre = { version = "=0.11.23", default-features = false, features = ["builder", "smtp-transport", "tokio1", "tokio1-native-tls"] }
headless_chrome = { version = "=1.0.22", default-features = false }
axoupdater = "=0.10.3"
reqwest = "=0.13.5"
