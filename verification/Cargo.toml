[package]
name = "bobot_impl"
version = "0.1.0"
edition = "2021"
rust-version = "1.95"
publish = false

[dependencies]
anyhow = "=1.0.104"
async-trait = "=0.1.92"
bb8 = "=0.9.1"
bb8-redis = "=0.26.0"
futures = "=0.3.34"
log = "=0.4.34"
rmp-serde = "=1.3.1"
sea-orm = { version = "=2.0.4", default-features = false, features = ["macros", "with-uuid", "with-chrono", "with-json"] }
serde = { version = "=1.0.229", features = ["derive"] }
# Used by teloxide only. Held at 0.1.1 because 0.1.2 asks for a newer
# compiler than the rust-version above.
takecell = "=0.1.1"
teloxide = { version = "=0.17.0", default-features = false }
tokio = { version = "=1.54.1", features = ["rt-multi-thread"] }
uuid = { version = "=1.29.0", features = ["v4", "serde"] }
