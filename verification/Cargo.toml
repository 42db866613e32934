[package]
name = "tfa_protector_bot"
version = "0.1.0"
edition = "2021"
publish = false

[dependencies]
anyhow = "1"
chrono = "=0.4.45"
flexi_logger = "=0.31.10"
log = "0.4"
mwapi_responses = "=0.5.1"
mwbot = "=0.7.1"
serde_json = "1"
tokio = { version = "1", features = ["macros", "rt-multi-thread"] }
