[package]
name = "oxeylyzer"
version = "0.1.0"
edition = "2021"
publish = false

[dependencies]
actix = "=0.13.5"
actix-rt = "=2.15.0"
actix-web = { version = "=4.18.1", default-features = false, features = ["macros"] }
actix-web-actors = "=4.3.1"
actix-ws = "=0.4.0"
ansi_rgb = "*"
anyhow = "=1.0.104"
file-chunker = "=0.1.1"
futures = "=0.3.34"
fxhash = "=0.2.1"
indexmap = { version = "=2.14.2", features = ["serde"] }
indicatif = "*"
itertools = "*"
lazy_static = "=1.5.1"
rayon = "=1.12.0"
serde = { version = "=1.0.229", features = ["derive"] }
serde_json = "=1.0.154"
shlex = "=2.0.1"
smartstring = { version = "=1.0.1", features = ["serde"] }
tokio = { version = "=1.54.1", features = ["rt"] }
uuid = { version = "=1.29.0", features = ["v4"] }
