[package]
name = "render_core"
version = "0.1.0"
edition = "2021"
publish = false

[dependencies]
ash = "=0.38.0"
ash-window = "=0.13.0"
bevy_app = "=0.16.1"
bevy_ecs = "=0.16.1"
bytemuck = "=1.25.2"
derive_more = { version = "=2.1.1", features = ["deref", "deref_mut"] }
hashbrown = "=0.15.5"
itertools = "=0.14.0"
raw-window-handle = "=0.6.2"
thiserror = "=2.0.21"
tracing = "=0.1.44"
tracing-subscriber = { version = "=0.3.23", features = ["env-filter"] }
uuid = "=1.29.0"
winit = "=0.30.13"
