[package]
name = "browser_defrag"
version = "0.1.0"
edition = "2021"

[dependencies]
anyhow = "*"
clap = { version = "*", features = ["derive"] }
humansize = "*"
sqlite = "*"
sysinfo = "*"
tabled = "*"
tempfile = "*"
tracing = "*"
tracing-subscriber = { version = "*", features = ["env-filter"] }
walkdir = "*"

[dev-dependencies]
configparser = "*"
