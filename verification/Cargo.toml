[package]
name = "dungeon_dice"
version = "0.1.0"
edition = "2021"
publish = false

[dependencies]
rand = "0.8"
rand_pcg = "0.3"
crossterm = { version = "0.25", features = ["event-stream"] }
futures = "0.3"
tokio = { version = "1", features = ["rt-multi-thread", "macros", "time"] }
tui = { version = "0.19", default-features = false, features = ["crossterm"] }
