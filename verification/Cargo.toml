[package]
name = "clx_music"
version = "0.1.0"
edition = "2021"
publish = false

[dependencies]
mp3-duration = "*"
serde = { version = "1", features = ["derive"] }
serde_json = "1"
ureq = "3"
kira = "*"
enigo = "*"
global-hotkey = "*"
