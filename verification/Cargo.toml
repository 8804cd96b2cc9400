[package]
name = "tui_chat_app"
version = "0.1.0"
edition = "2021"
publish = false

[dependencies]
bytes = "=1.12.1"
chrono = "=0.4.45"
clap = { version = "=4.6.7", features = ["derive"] }
crossterm = "=0.25.0"
dashmap = "=5.5.3"
eznet = "=0.2.0"
notify-rust = "=4.18.2"
tokio = { version = "=1.54.1", features = ["macros", "rt-multi-thread", "sync", "time"] }
# eznet 0.2.0 does not compile against later releases of tokio-util
tokio-util = "=0.7.4"
tui = "=0.19.0"
uuid = { version = "=1.29.0", features = ["v4", "serde"] }

[dev-dependencies]
bincode = "=1.3.3"
serde = "=1.0.229"
