[package]
name = "oxurack"
version = "0.1.0"
edition = "2021"
publish = false

[dependencies]
ahash = "*"
rand = "*"
serde = { version = "1", features = ["derive"] }
ron = "*"
thiserror = "*"
smallvec = "1"
rtrb = "*"
midir = "*"
quanta = "*"
spin_sleep = "*"
audio_thread_priority = "*"
bevy_ecs = "*"
bevy_app = "*"
bevy_reflect = "*"
