[package]
name = "nyne_solvers"
version = "0.1.0"
edition = "2021"
publish = false

[dependencies]
primitive-types = { version = "=0.12.2", features = ["rustc-hex"] }
const-hex = "=1.19.3"
alloy = { version = "=1.8.3", default-features = false, features = ["std", "signer-local"] }
serde = { version = "=1.0.229", features = ["derive"] }
serde_json = "=1.0.154"
serde_qs = "=0.13.0"
reqwest = { version = "=0.12.28", default-features = false, features = ["json"] }
tokio = { version = "=1.54.1", features = ["macros", "rt-multi-thread", "signal"] }
axum = "=0.7.9"
tower = "=0.5.3"
tower-http = { version = "=0.6.11", features = ["trace"] }
anyhow = "=1.0.104"
thiserror = "=2.0.21"
async-trait = "=0.1.92"
clap = { version = "=4.6.7", features = ["derive", "env"] }
toml = "=0.8.23"
tracing = "=0.1.44"
tracing-subscriber = { version = "=0.3.23", features = ["env-filter"] }
chrono = "=0.4.45"
rand = "=0.8.8"
