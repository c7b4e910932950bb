[package]
name = "dino_run"
version = "0.1.0"
edition = "2021"
publish = false

[dependencies]
anyhow = "1"
cairo-rs = { version = "0.18", default-features = false, features = ["freetype", "png"] }
drm = "0.11"
freetype-rs = "*"
input = "0.8"
libc = "0.2"
nix = { version = "0.27", features = ["event", "signal"] }
rand = "0.8"
