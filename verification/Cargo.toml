[package]
name = "smded"
version = "0.1.0"
edition = "2021"
publish = false

[dependencies]
anyhow = "1"
bit_field = "0.10"
bitflags = "2"
blocking = "1"
bytemuck = { version = "1", features = ["extern_crate_alloc"] }
eframe = { version = "0.32", default-features = false, features = ["default_fonts", "glow", "x11"] }
egui = { version = "0.32", features = ["persistence"] }
egui_extras = { version = "0.32", default-features = false }
heck = "0.5"
quick-xml = { version = "0.38", features = ["serialize"] }
rfd = { version = "0.15", default-features = false, features = ["tokio", "xdg-portal"] }
serde = { version = "1", features = ["derive"] }
slotmap = { version = "1", features = ["serde"] }
tracing = "0.1"
tracing-subscriber = { version = "0.3", features = ["env-filter"] }
