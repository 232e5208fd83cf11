[package]
name = "thief_engine"
version = "0.1.0"
edition = "2021"
publish = false

[dependencies]
ncollide2d = "0.33"
rand = "=0.7.3"
tiled = "=0.9.4"
serde = { version = "1", features = ["derive"] }
log = "0.4"
