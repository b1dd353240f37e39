[package]
name = "bunnylol"
version = "0.1.0"
edition = "2021"
publish = false

[dependencies]
mlua = { version = "*", features = ["lua54", "vendored"] }
percent-encoding = "*"
xdg = "*"
serde = { version = "*", features = ["derive"] }
toml = "*"
notify = "*"
open = "*"
clap = { version = "*", features = ["derive"] }
