[package]
name = "fakeup"
version = "0.1.0"
edition = "2021"
publish = false

[dependencies]
envsubst = "*"
chrono = { version = "*", default-features = false, features = ["clock", "std"] }
prometheus = { version = "*", default-features = false }
actix = "*"
actix-web = { version = "*", default-features = false, features = ["macros"] }
reqwest = { version = "*", default-features = false, features = ["json"] }
serde = { version = "*", features = ["derive"] }
serde_json = "*"
log = "*"
env_logger = "*"
structopt = "*"
futures = "*"
