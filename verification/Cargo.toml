[package]
name = "p3_lib"
version = "0.1.0"
edition = "2021"
publish = false

[dependencies]
byteorder = "1"
clap = { version = "4", features = ["derive"] }
glob = "0.3"
image = { version = "0.25", default-features = false, features = ["bmp"] }
log = "0.4"
simple_logger = "*"
serde = { version = "1", features = ["derive"] }
toml = "*"
pathfinding = "*"
sysinfo = "0.29"
