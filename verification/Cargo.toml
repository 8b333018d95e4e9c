[package]
name = "gstat"
version = "0.1.0"
edition = "2021"
publish = false

[dependencies]
clap = { version = "*", features = ["derive"] }
libc = "*"
notify = "*"
notify-debouncer-mini = "*"

[dev-dependencies]
serde_json = "*"
