[package]
name = "nh"
version = "0.1.0"
edition = "2021"
publish = false

[dependencies]
chrono = "=0.4.45"
color-eyre = "=0.6.5"
elasticsearch-dsl = "=0.4.26"
indicatif = "=0.18.6"
inferno = { version = "=0.12.8", default-features = false }
inquire = "=0.9.4"
reqwest = { version = "=0.12.28", default-features = false, features = ["blocking", "json", "rustls-tls"] }
secrecy = "=0.10.3"
serde = { version = "1", features = ["derive"] }
serde_json = "=1.0.154"
spam-db = "=0.2.4"
subprocess = "=1.2.3"
tempfile = "=3.27.0"
textwrap = { version = "=0.16.4", features = ["terminal_size"] }
toml_edit = "=0.25.17"
tracing = "=0.1.44"
yansi = "=1.0.1"
