[package]
name = "trade_alerts"
version = "0.1.0"
edition = "2021"
publish = false

[dependencies]
md-5 = "*"
serde_json = "*"
reqwest = { version = "*", default-features = false, features = ["json"] }
tokio = { version = "*", features = ["macros", "rt-multi-thread"] }
dotenv = "*"
anyhow = "*"
supabase_rs = "*"
