[package]
name = "buzzkill"
version = "0.1.0"
edition = "2021"
publish = false

[dependencies]
axum = "0.7"
env_logger = "0.11"
gpsd_proto = "*"
include_dir = "0.7"
lettre = { version = "0.11", default-features = false, features = ["builder", "smtp-transport", "rustls-tls"] }
libc = "0.2"
log = "0.4"
mime_guess = "2"
serde = { version = "1", features = ["derive"] }
sqlx = { version = "0.8", default-features = false, features = ["postgres", "runtime-tokio"] }
tokio = { version = "1", features = ["rt", "net", "macros", "rt-multi-thread"] }
