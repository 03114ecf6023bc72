[package]
name = "browser_manager"
version = "0.1.0"
edition = "2021"
publish = false

[dependencies]
zip = "*"
flate2 = "*"
tar = "*"
which = "*"
directories = "*"
clap = "*"
log = "*"
serde = { version = "*", features = ["derive"] }
serde_json = "*"
reqwest = { version = "*", default-features = false, features = ["blocking", "rustls-tls"] }
