[package]
name = "nw_tools"
version = "0.1.0"
edition = "2021"
publish = false

[dependencies]
clap = { version = "4", features = ["derive"] }
crc32fast = "1"
flate2 = "1"
globset = "0.4"
indexmap = { version = "2", features = ["serde"] }
natord = "1"
oodle-safe = "*"
quick-xml = { version = "*", features = ["serialize"] }
serde = { version = "1", features = ["derive"] }
serde_json = { version = "1", features = ["preserve_order"] }
serde_yml = "*"
simd-json = "*"
thiserror = "1"
uuid = "1"
walkdir = "2"
zip = { version = "2", default-features = false, features = ["deflate"] }
