[package]
name = "brush"
version = "0.3.0"
edition = "2021"
publish = false

[dependencies]
alphanumeric-sort = "1"
anyhow = "1"
argh = "0.1"
base64 = "0.22"
clap = { version = "4", features = ["derive"] }
egui = { version = "0.32", default-features = false }
env_logger = { version = "0.11", default-features = false }
gemini-rust = { version = "1.5", default-features = false }
glam = "0.30"
humantime = "2"
image = { version = "0.25", default-features = false, features = ["png"] }
indicatif = "0.18"
log = "0.4"
npyz = { version = "0.8", features = ["npz"] }
rubato = "0.16"
serde_json = "1"
tokio = { version = "1", features = ["rt"] }
