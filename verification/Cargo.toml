[package]
name = "myousync"
version = "0.1.0"
edition = "2021"
publish = false

[dependencies]
urlencoding = "=2.1.3"
pbkdf2 = { version = "=0.12.2", features = ["simple"] }
rand = "=0.10.3"
jsonwebtoken = { version = "=11.1.0", features = ["rust_crypto"] }
sanitise-file-name = "=1.0.0"
serde = { version = "=1.0.229", features = ["derive"] }
serde_json = "=1.0.151"
rusqlite = { version = "=0.40.2", features = ["bundled"] }
tokio = { version = "=1.53.2", features = ["rt", "macros", "time", "sync", "process"] }
reqwest = { version = "=0.13.5", default-features = false, features = ["json"] }
toml = "=1.1.7"
duration-str = "=0.21.0"
glob = "=0.3.4"
walkdir = "=2.5.0"
gethostname = "=1.1.0"
log = "=0.4.34"
anyhow = "=1.0.104"
id3 = "=1.17.2"
metaflac = "=0.2.8"
mp4ameta = "=0.13.0"
opusmeta = "=3.0.0"
oggmeta = "=1.3.1"
