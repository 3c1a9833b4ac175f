[package]
name = "black_hole_flux"
version = "0.1.0"
edition = "2021"
publish = false

[dependencies]
async-trait = "*"
futures = "*"
postcard = { version = "*", features = ["alloc"] }
rand = "0.9"
serde = { version = "*", features = ["derive"] }
thiserror = "*"
tokio = { version = "*", features = ["time", "rt", "macros"] }
tracing = "*"
typenum = "*"
uuid = { version = "*", features = ["v4", "serde"] }
