[package]
name = "stork-script"
version = "0.1.0"
edition = "2021"
publish = false

[dependencies]
la-arena = "0.3"
rowan = "0.15"
ariadne = "0.4"
anyhow = "1"
logos = "0.14"
itertools = "0.13"
bevy_ecs = "0.15"
bevy_reflect = { version = "0.15", features = ["functions"] }
async-lsp = "0.2"
async-std = "1"
futures = "0.3"
tower = "0.4"
