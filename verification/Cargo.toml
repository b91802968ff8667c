[package]
name = "voidsnap"
version = "0.1.0"
edition = "2021"
publish = false

[dependencies]
anyhow = "1"
chrono = "0.4"
directories = "5"
image = { version = "0.25", default-features = false, features = ["png"] }
memmap2 = "0.9"
nix = { version = "0.29", features = ["fs", "mman"] }
serde = { version = "1", features = ["derive"] }
toml = "0.8"
wayland-client = "0.31"
wayland-protocols-wlr = { version = "0.3", features = ["client"] }
wl-clipboard-rs = "0.9"
