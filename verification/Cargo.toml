[package]
name = "ani_gui_core"
version = "0.1.0"
edition = "2021"
publish = false

[dependencies]
shlex = "1"
uuid = { version = "1", features = ["v4"] }
url = "2"
serde = { version = "1", features = ["derive"] }
serde_json = "1"
toml = "0.8"
fs4 = "*"
