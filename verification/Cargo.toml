[package]
name = "protogen"
version = "0.1.0"
edition = "2021"
publish = false

[dependencies]
regex = "1"
semver = { version = "1", features = ["serde"] }
zip = { version = "0.5", default-features = false, features = ["deflate"] }
anyhow = "1"
directories = "5"
reqwest = { version = "0.11", default-features = false, features = ["blocking", "json", "gzip", "rustls-tls"] }
serde = { version = "1", features = ["derive"] }
structopt = "0.3"
toml = "0.5"
