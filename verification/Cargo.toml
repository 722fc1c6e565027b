[package]
name = "fortune_deck"
version = "0.1.0"
edition = "2021"
publish = false

[dependencies]
rand = "0.8"
uuid = { version = "1", features = ["v4"] }
chrono = "0.4"
serde = { version = "1", features = ["derive"] }
tokio = { version = "1", features = ["macros", "rt-multi-thread"] }
actix-web = { version = "4", default-features = false, features = ["macros"] }
actix-cors = "0.7"
ask_gemini = "*"
dotenv = "0.15"
env_logger = "0.11"
log = "0.4"
num_cpus = "1"
