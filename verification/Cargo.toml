[package]
name = "esmail"
version = "0.1.0"
edition = "2021"
publish = false

[dependencies]
ammonia = "=4.2.4"
anyhow = "=1.0.104"
async-imap = { version = "=0.12.0", default-features = false, features = ["runtime-tokio"] }
eframe = { version = "=0.37.0", default-features = false, features = ["glow", "default_fonts", "x11"] }
egui = "=0.37.0"
env_logger = "=0.11.11"
futures = "=0.3.34"
interprocess = { version = "=2.4.7", features = ["tokio"] }
log = "=0.4.35"
mailparse = "=0.18.0"
opener = "=0.9.0"
rusqlite = { version = "=0.41.1", features = ["bundled"] }
secrecy = "=0.10.3"
tokio = { version = "=1.54.1", features = ["rt-multi-thread", "macros", "net", "sync", "time", "fs"] }
tokio-native-tls = "=0.3.1"
ureq = { version = "*", default-features = false, features = ["native-tls"] }
widestring = "=1.2.1"
