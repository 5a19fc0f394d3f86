[package]
name = "mind_meld"
version = "0.1.0"
edition = "2021"
publish = false

[dependencies]
gix = "=0.90.0"
zip = { version = "=9.0.5", default-features = false, features = ["deflate"] }
clap = { version = "=4.6.7", features = ["derive"] }
toml = "=1.1.8"
chrono = "=0.4.45"
ctrlc = "=3.5.2"
notify-debouncer-full = "=0.7.0"
dirs = "=7.0.0"

[dev-dependencies]
tempfile = "=3.27.0"
