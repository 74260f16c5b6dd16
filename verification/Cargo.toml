[package]
name = "timetracking"
version = "0.1.0"
edition = "2021"
publish = false

[dependencies]
chrono = "0.4"
clap = { version = "3", features = ["cargo"] }
csv = "1"
fern = "0.6"
git-version = "0.3"
log = "0.4"
serde = { version = "1", features = ["derive"] }
