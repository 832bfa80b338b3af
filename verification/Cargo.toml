[package]
name = "runway_selector"
version = "0.1.0"
edition = "2021"
publish = false

[dependencies]
exitfailure = "=0.5.1"
metar = "0.7"
reqwest = "=0.11.27"
serde = { version = "=1.0.229", features = ["derive"] }
serde_json = "=1.0.154"
tokio = { version = "=1.54.1", features = ["macros", "rt-multi-thread"] }
