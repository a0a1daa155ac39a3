[package]
name = "jenkins_tui"
version = "0.1.0"
edition = "2021"
publish = false

[dependencies]
atom_syndication = "*"
serde_ini = "*"
reqwest = { version = "*", default-features = false }
tokio = { version = "*", features = ["rt", "rt-multi-thread", "macros", "sync", "time"] }
crossterm = { version = "*", features = ["event-stream"] }
ratatui = "*"
tui-scrollview = "*"
clap = { version = "*", features = ["derive"] }
expanduser = "*"
futures = "*"
