[package]
name = "lag"
version = "0.1.0"
edition = "2021"
publish = false

[dependencies]
chrono = "0.4"
lazysort = "0.2"
unicode-segmentation = "1"
unicode-width = "0.1"
tui = { version = "0.8", default-features = false, features = ["crossterm"] }
crossterm = "0.14"
rayon = "1"
structopt = "0.3"
failure = "0.1"
serde = { version = "1", features = ["derive"] }
serde_json = "1"
rand = "0.7"
