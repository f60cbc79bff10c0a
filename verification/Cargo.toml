[package]
name = "relay_setup"
version = "0.1.0"
edition = "2021"
publish = false

[dependencies]
anyhow = "*"
clap = { version = "*", features = ["derive"] }
dialoguer = "*"
inquire = "*"
pnet = "*"
reqwest = { version = "*", default-features = false, features = ["blocking", "json"] }
serde = { version = "*", features = ["derive"] }
serde_json = "*"
sudo = "*"
thiserror = "*"
uuid = { version = "*", features = ["v4"] }
xshell = "*"
