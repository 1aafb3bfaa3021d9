[package]
name = "semantic-sdp"
version = "0.1.0"
edition = "2021"
publish = false

[dependencies]
ordered-multimap = "=0.3.1"
rand = "=0.7.3"
cxx = "1"
futures = "0.3"
log = "0.4"
parking_lot = "0.11"
pretty_env_logger = "0.4"
serde = { version = "1", features = ["derive"] }
serde_json = "1"
structopt = "0.3"
tokio = { version = "1", features = ["macros", "rt-multi-thread"] }
warp = "0.3"
