[package]
name = "runaserver"
version = "0.1.0"
edition = "2021"
publish = false

[dependencies]
regex = "1"
serde = { version = "1", features = ["derive"] }
serde_json = "1"
toml = "*"
chrono = "0.4"
libc = "0.2"
local-ip-address = "*"
rpassword = "7"
rust-embed = "8"
rust-i18n = "3"
terminal_size = "*"
ureq = "3"
mysql = { version = "*", default-features = false, features = ["minimal"] }
