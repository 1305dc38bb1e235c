[package]
name = "usaidwat"
version = "0.1.0"
edition = "2021"
publish = false

[dependencies]
markdown = "1"
textwrap = "0.16"
regex = "1"
itertools = "*"
counter = "*"
relativetime = "*"
chrono = "0.4"
discount = "*"
serde = { version = "1", features = ["derive"] }
serde_json = "1"
colored = "*"
clap = { version = "4", features = ["derive"] }
clap-verbosity-flag = "*"
env_logger = "*"
log = "0.4"
tokio = { version = "1", features = ["macros", "rt-multi-thread", "process", "io-util"] }
reqwest = { version = "0.12", default-features = false, features = ["json", "rustls-tls"] }
atty = "*"
anyhow = "1"
thiserror = "*"
