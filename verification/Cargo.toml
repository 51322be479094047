[package]
name = "sitegen"
version = "0.1.0"
edition = "2021"
publish = false

[dependencies]
chrono = "=0.4.45"
comrak = "=0.44.0"
# not used directly: holds liquid's transitive kstring below the first
# patch whose minimum rustc this toolchain does not meet
kstring = ">=2.0, <2.0.3"
liquid = "=0.26.11"
notify = "=4.0.18"
rsass = "=0.29.2"
scraper = "=0.27.0"
serde = { version = "=1.0.229", features = ["derive"] }
serde_json = "=1.0.151"
