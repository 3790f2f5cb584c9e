[package]
name = "mineplacer"
version = "0.1.0"
edition = "2021"
publish = false

[dependencies]
pagurus = { version = "=0.7.4", features = ["random", "image", "fixed_window"] }
pagurus_tui = { version = "=0.7.5", default-features = false, features = ["video"] }
rand = { version = "0.8", default-features = false }
orfail = "1"
png = "0.17"
serde = { version = "1", features = ["derive"] }
serde_json = "1"
