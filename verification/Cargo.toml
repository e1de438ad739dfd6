[package]
name = "mic"
version = "0.1.0"
edition = "2021"
publish = false

[dependencies]
chrono = "0.4"
clap = { version = "4", features = ["derive"] }
dirs = "5"
glob = "0.3"
image = { version = "0.24", default-features = false, features = ["png", "jpeg"] }
lofty = "0.18"
prettytable-rs = "0.10"
rand = "0.8"
rayon = "1"
regex = "1"
serde = { version = "1", features = ["derive"] }
serde_json = "1"
