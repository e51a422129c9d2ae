[package]
name = "music_core"
version = "0.1.0"
edition = "2021"
publish = false

[dependencies]
dbus = "0.9"
http = "1"
http-range = "=0.1.6"
lofty = "=0.18.2"
log = "=0.4.34"
md5 = "=0.7.0"
mime_guess = "=2.0.5"
percent-encoding = "=2.3.2"
rand = "=0.8.8"
rodio = "0.17"
serde = { version = "=1.0.229", features = ["derive"] }
time = { version = "=0.3.55", features = ["serde", "formatting", "parsing"] }
which = "=8.0.6"
