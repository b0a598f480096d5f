[package]
name = "drm_atomic_session"
version = "0.1.0"
edition = "2021"
publish = false

[dependencies]
drm = "*"
nix = { version = "0.29", features = ["fs"] }
slog = "2"
