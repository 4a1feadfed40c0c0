[package]
name = "doppelback"
version = "0.1.0"
edition = "2021"
publish = false

[dependencies]
clap = "2"
pathsearch = "0.2"
structopt = "0.3"
serde = { version = "1", features = ["derive"] }
serde_yaml = "0.8"
log = "0.4"
fern = "0.6"
chrono = "0.4"
libc = "0.2"
utime = "0.3"

[dev-dependencies]
tempdir = "0.3"
