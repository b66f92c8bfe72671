[package]
name = "endsong"
version = "0.1.0"
edition = "2021"
publish = false

[dependencies]
chrono = "=0.4.45"
unicase = "=2.10.0"
unicode-width = "=0.2.3"
textwrap = "=0.16.4"
urlencoding = "=2.1.3"
regex = "=1.13.1"
serde = { version = "=1.0.229", features = ["derive"] }
serde_json = "=1.0.154"
plotly = "0.10"
rustyline = { version = "14", features = ["derive"] }
