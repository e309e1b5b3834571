[package]
name = "rustyracer_engine"
version = "0.1.0"
edition = "2021"
publish = false

[dependencies]
lz4_flex = "=0.11.6"
zstd = "=0.13.4"
fxhash = "=0.2.1"
glam = { version = "=0.24.2", features = ["serde", "bytemuck"] }
serde = { version = "=1.0.229", features = ["derive"] }
serde_json = "=1.0.154"
thiserror = "=1.0.69"
bincode = "=1.3.3"
rayon = "=1.12.0"
tokio = { version = "=1.54.1", features = ["rt-multi-thread", "sync", "fs", "macros"] }
log = "=0.4.35"
env_logger = "=0.10.2"
hashbrown = "=0.14.5"
bytemuck = { version = "=1.25.2", features = ["derive"] }
rapier3d = "=0.17.2"
egui = "=0.28.1"
puffin = "=0.19.1"
puffin_egui = "=0.29.0"
renet = "=0.0.16"
kira = { version = "=0.8.7", default-features = false }
winit = "0.29"
sdl2 = "0.36"
