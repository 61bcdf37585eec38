[package]
name = "fx_rates"
version = "0.1.0"
edition = "2021"
publish = false

[dependencies]
chrono = "0.4"
regex = "1"
select = "0.6"
serde = { version = "1", features = ["derive"] }
serde_json = "1"
tokio = { version = "1", features = ["full"] }
tokio-stream = "0.1"
futures = "0.3"
warp = "0.3"
reqwest = "0.11"
diesel = { version = "1.4", features = ["postgres"] }
dotenv = "0.15"
pretty_env_logger = "0.4"

[dev-dependencies]
itertools = "0.10"
