[package]
name = "rusty_suite"
version = "0.1.0"
edition = "2021"
publish = false

[dependencies]
anyhow = "=1.0.104"
axum = { version = "=0.7.9", default-features = false, features = ["tokio", "http1", "json"] }
clap = { version = "=4.6.7", features = ["derive"] }
eframe = { version = "0.37", default-features = false, features = ["glow", "default_fonts", "x11"] }
egui_plot = { version = "0.38", default-features = false }
rand = "=0.8.8"
rayon = "=1.12.0"
serde = { version = "=1.0.229", features = ["derive"] }
serde_json = "=1.0.154"
sqlx = { version = "=0.8.6", default-features = false, features = ["sqlite", "runtime-tokio"] }
sysinfo = { version = "0.29", default-features = false }
tokio = { version = "=1.54.1", features = ["rt-multi-thread", "macros", "net", "io-util", "sync", "time"] }
wasm-bindgen = "=0.2.130"
web-sys = { version = "=0.3.107", features = ["console"] }
