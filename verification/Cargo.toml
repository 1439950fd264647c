[package]
name = "modemdeck"
version = "1.0.0"
edition = "2021"
publish = false

[dependencies]
serde = { version = "1", features = ["derive"] }
serde_json = "1"
reqwest = { version = "*", default-features = false, features = ["blocking", "json", "rustls-tls"] }
glib = "*"
gio = "*"
glib-unix = "*"
serialport = { version = "*", default-features = false }
