[package]
name = "trayplay"
version = "0.1.0"
edition = "2021"
publish = false

[dependencies]
anyhow = "1"
async-channel = "2"
clap = { version = "4", features = ["derive"] }
directories = "*"
futures-util = "0.3"
gdk4-x11 = "0.9"
gtk4 = { version = "0.9", features = ["v4_10"] }
gtk4-layer-shell = "0.4"
ksni = "0.3"
libadwaita = { version = "0.7", features = ["v1_4"] }
mpris-server = "*"
notify = "*"
reqwest = { version = "0.12", default-features = false, features = ["json", "stream", "rustls-tls"] }
rodio = { version = "0.20", default-features = false }
rpassword = "7"
serde = { version = "1", features = ["derive"] }
serde_json = "1"
symphonia = { version = "0.5", default-features = false, features = ["mp3", "aac", "isomp4", "alac", "flac", "wav", "pcm"] }
tokio = { version = "1", features = ["full"] }
toml = "*"
tracing = "0.1"
tracing-subscriber = { version = "0.3", features = ["env-filter"] }
urlencoding = "2"
uuid = { version = "1", features = ["v4"] }
x11rb = "0.13"
