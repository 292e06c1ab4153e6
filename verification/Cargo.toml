[package]
name = "marswm"
version = "0.1.0"
edition = "2021"
publish = false

[dependencies]
serde = { version = "1", features = ["derive"] }
serde_yaml = "0.9"
clap = { version = "4", features = ["derive"] }
xdg = "2"
x11rb = { version = "0.13", features = ["randr"] }
