[package]
name = "glsl_types"
version = "0.1.0"
edition = "2021"
publish = false

[dependencies]
glsl = "*"
clap = { version = "4", features = ["derive"] }
colored = "*"
chrono = "0.4"
notify = "*"
tokio = { version = "1", features = ["rt-multi-thread", "macros", "time", "sync"] }
napi = "2"
napi-derive = "2"
