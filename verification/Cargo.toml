[package]
name = "twba_dashboard"
version = "0.1.0"
edition = "2021"
publish = false

[dependencies]
chrono = "*"
serde = { version = "*", features = ["derive"] }
rocket = "*"
rocket_dyn_templates = { version = "*", features = ["handlebars"] }
derive_more = { version = "*", features = ["full"] }
