[package]
name = "bevy_blast_ultra"
version = "0.1.0"
edition = "2021"
publish = false

[dependencies]
egui_extras = { version = "0.24", default-features = false, features = ["image"] }
serde = { version = "1", features = ["derive"] }
