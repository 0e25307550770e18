[package]
name = "josh_link"
version = "0.1.0"
edition = "2021"
publish = false

[dependencies]
anyhow = "=1.0.104"
clap = { version = "=4.6.7", features = ["derive"] }
gix-actor = "=0.44.1"
gix-hash = { version = "0.22", features = ["sha1"] }
