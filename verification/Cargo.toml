[package]
name = "blackout"
version = "0.1.0"
edition = "2021"
publish = false

[dependencies]
serde = { version = "=1.0.229", features = ["derive"] }
toml = "=1.1.8"
libc = "=0.2.191"
x11rb = { version = "=0.14.0", features = ["randr", "render"] }
embedded-graphics = "=0.8.2"
png = "=0.17.16"
