[package]
name = "idr"
version = "0.1.0"
edition = "2021"
publish = false

[dependencies]
anyhow = "=1.0.104"
clap = { version = "=4.6.7", features = ["derive"] }
gix = { version = "=0.90.0", default-features = false, features = ["sha1"] }
gix-config = "=0.62.1"
jiff = "=0.2.38"
minijinja = "=2.24.0"
slug = "=0.1.6"

[dev-dependencies]
regex = "=1.13.1"
