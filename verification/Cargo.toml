[package]
name = "benzaiten"
version = "0.1.0"
edition = "2021"
publish = false

[dependencies]
unicode-normalization = "0.1.26"
serde = { version = "1", features = ["derive"] }
serde_json = "1"
tempfile = "3"
hound = "3"
lofty = "0.22"
symphonia = { version = "0.5", features = ["all"] }
rubato = "0.16"
flacenc = "0.5"
mp3lame-encoder = "0.2"
rodio = "0.21"
image = { version = "0.25", default-features = false, features = ["png", "jpeg"] }
ort = "=2.0.0-rc.10"
windows = { version = "0.62", features = ["Win32_Foundation", "Win32_Media_MediaFoundation", "Win32_System_Com"] }
