[package]
name = "board_game_bot"
version = "0.1.0"
edition = "2021"
publish = false

[dependencies]
chrono = "=0.4.45"
dptree = "=0.3.0"
libsql = { version = "=0.10.0", default-features = false, features = ["remote"] }
serde = { version = "=1.0.229", features = ["derive"] }
serde_json = "=1.0.154"
takecell = "=0.1.1"
teloxide = { version = "=0.12.2", default-features = false, features = ["macros", "ctrlc_handler", "rustls"] }
tokio = { version = "=1.54.1", features = ["rt-multi-thread", "macros", "sync"] }
warp = "=0.3.7"
