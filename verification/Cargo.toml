[package]
name = "starwars"
version = "0.1.0"
edition = "2021"
publish = false

[dependencies]
async-graphql = "7"
async-graphql-warp = "7"
bb8-redis = "*"
futures = "0.3"
http = "0.2"
serde = { version = "1", features = ["derive"] }
serde_json = "1"
tokio = { version = "1", features = ["macros", "rt-multi-thread"] }
warp = "0.3"
