[package]
name = "mercenaries"
version = "0.1.0"
edition = "2021"
publish = false

[dependencies]
pathfinding = "*"
rand = "*"
uuid = { version = "*", features = ["v4"] }
noise = "*"
