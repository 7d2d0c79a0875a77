[package]
name = "asg"
version = "0.1.0"
edition = "2021"
publish = false

[dependencies]
axum = { version = "*", features = ["ws"] }
chrono = "*"
colored = "*"
markdown = "*"
mlua = { version = "*", features = ["luau", "serialize"] }
notify-debouncer-full = "*"
scraper = "*"
serde = { version = "*", features = ["derive"] }
syntect = { version = "*", default-features = false, features = ["default-fancy"] }
tokio = { version = "*", features = ["full"] }
tower-http = { version = "*", features = ["fs"] }
walkdir = "*"
