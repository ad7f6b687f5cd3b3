[package]
name = "pantau"
version = "0.1.0"
edition = "2021"
publish = false

[dependencies]
directories = "6"
chrono = "0.4"
serde = { version = "1", features = ["derive"] }
serde_json = "1"
toml = "0.8"
clap = { version = "4", features = ["derive"] }
clap_complete = "4"
crossterm = "0.28"
ratatui = "0.29"
walkdir = "2"
rayon = "1"
trash = "5"
ureq = { version = "2", features = ["json"] }
libc = "0.2"
