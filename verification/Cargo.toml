[package]
name = "caffeine"
version = "0.3.5"
edition = "2021"
publish = false

[dependencies]
serde_json = "1"
serde = { version = "1", features = ["derive"] }
clap = { version = "4", features = ["derive"] }
clap_complete = "4"
libc = "0.2"
toml = "0.8"
dirs = "5"
ureq = "2"
open = "5"
tao = "*"
muda = "*"
tray-icon = "*"
resvg = "*"
