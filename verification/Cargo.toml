[package]
name = "pixiv_archive"
version = "0.1.0"
edition = "2021"
publish = false

[dependencies]
chrono = "=0.4.45"
clap = { version = "=4.6.7", features = ["derive", "env"] }
clap-verbosity-flag = "=3.0.4"
dotenv = "=0.15.0"
env_logger = "=0.11.11"
fast_image_resize = { version = "=6.1.0", features = ["image"] }
futures = "=0.3.34"
image = "=0.25.10"
indicatif = "=0.18.6"
indicatif-log-bridge = "=0.2.3"
log = "=0.4.34"
mime_guess = "=2.0.5"
post-archiver = "=0.5.8"
post-archiver-utils = "=0.2.1"
reqwest = { version = "=0.12.28", default-features = false, features = ["json"] }
serde = { version = "=1.0.229", features = ["derive"] }
serde_json = "=1.0.151"
serde_repr = "=0.1.21"
serde_with = "=3.24.0"
tempfile = "=3.27.0"
tokio = { version = "=1.53.2", features = ["full"] }
