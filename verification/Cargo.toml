[package]
name = "npkill"
version = "0.1.0"
edition = "2021"
publish = false

[dependencies]
byte-unit = "4"
crossterm = "0.25"
humantime = "2"
remove_dir_all = "0.8"
tokio = { version = "1", features = ["full"] }
tui = { version = "0.19", features = ["crossterm"] }
