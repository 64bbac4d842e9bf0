[package]
name = "workplaces"
version = "0.1.0"
edition = "2021"
publish = false

[dependencies]
id_tree = "=1.8.0"
itertools = "=0.15.0"
clap = { version = "*", features = ["derive"] }
serde = { version = "*", features = ["derive"] }
serde_yaml = "*"
bincode = "=1.3.3"
once_cell = "*"
swayipc = "*"
swayipc-command-builder = "*"
wayland-client = "*"
wayland-protocols-wlr = { version = "*", features = ["client"] }
