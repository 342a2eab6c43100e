[package]
name = "optiflow"
version = "0.1.1"
edition = "2021"
publish = false

[dependencies]
blake3 = "1"
crc32fast = "1"
flate2 = "1"
png = "*"
serde = { version = "1", features = ["derive"] }
serde_json = "1"
uuid = { version = "1", features = ["v7"] }
chrono = { version = "0.4", default-features = false, features = ["clock", "std"] }
clap = { version = "4", features = ["derive"] }
anyhow = "1"
toml = "*"
directories = "*"
walkdir = "2"
infer = "*"
signal-hook = "*"
which = "*"
rusqlite = { version = "*", features = ["bundled"] }
jsonschema = { version = "*", default-features = false }

[dev-dependencies]
tempfile = "3"
