[package]
name = "dust_pipeline"
version = "0.1.0"
edition = "2021"
publish = false

[dependencies]
bevy_app = "0.11"
bevy_asset = "0.11"
bevy_reflect = "0.11"
bevy_tasks = "0.11"
glam = "0.24"
sentry = { version = "0.35", default-features = false }
sentry-tracing = { version = "0.35", default-features = false }
tracing = "0.1"
tracing-subscriber = { version = "0.3", features = ["env-filter"] }
