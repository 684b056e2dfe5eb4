[package]
name = "loop_engine"
version = "0.1.0"
edition = "2021"
publish = false

[dependencies]
async-trait = "0.1"
axum = { version = "0.8", default-features = false, features = ["json"] }
chrono = { version = "0.4", default-features = false, features = ["clock", "serde"] }
sea-orm = { version = "1.1", default-features = false, features = ["macros", "with-chrono", "with-json"] }
sea-orm-migration = { version = "1.1", default-features = false }
serde = { version = "1", features = ["derive"] }
serde_json = "1"
tracing = "0.1"
