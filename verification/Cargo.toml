[package]
name = "resk"
version = "0.1.0"
edition = "2021"
publish = false

[dependencies]
libp2p = { version = "0.52", features = ["ed25519", "gossipsub", "kad", "macros", "mdns", "noise", "quic", "tcp", "tokio", "yamux"] }
serde_json = "1"
tokio = { version = "1", features = ["full"] }
futures = "0.3"
log = "0.4"
pretty_env_logger = "0.5"
clap = { version = "4", features = ["cargo"] }
clipboard = "0.5"
android-activity = { version = "0.4", features = ["native-activity"] }
android_logger = "0.13"
