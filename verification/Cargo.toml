[package]
name = "digimorse"
version = "0.1.0"
edition = "2021"
publish = false

[dependencies]
labrador-ldpc = "*"
dashmap = "*"
bitvec = "*"
bus = "*"
syncbox = "*"
portaudio = "*"
log = "*"
env_logger = "*"
clap = "2"
ctrlc = "*"
dirs = "*"
toml = "*"
serde = { version = "1", features = ["derive"] }
sparse-bin-mat = "*"
realfft = "*"
num = "*"
regex = "*"
