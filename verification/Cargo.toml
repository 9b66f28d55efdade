[package]
name = "efd-station"
version = "0.1.0"
edition = "2021"
publish = false

[dependencies]
alsa = "0.9"
audiopus = "*"
bincode = "2"
cpal = "0.15"
directories = "5"
futures-util = "0.3"
gl = "0.14"
glib = "0.20"
gtk4 = { version = "0.9", features = ["v4_12"] }
libc = "0.2"
nix = { version = "0.29", features = ["fs", "poll", "term"] }
rusb = "0.9"
rustfft = "6"
serde = { version = "1", features = ["derive"] }
symphonia = { version = "0.5", features = ["flac", "wav", "pcm"] }
thiserror = "1"
tokio = { version = "1", features = ["full"] }
tokio-tungstenite = "0.24"
tokio-util = "0.7"
toml = "0.8"
tracing = "0.1"
tracing-subscriber = "0.3"
