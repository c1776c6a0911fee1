[package]
name = "utterance_stream"
version = "0.1.0"
edition = "2021"
publish = false

[dependencies]
clap = { version = "4", features = ["derive"] }
cpal = "0.15"
earshot = "0.1"
ringbuf = "0.4"
samplerate = "0.2"
wav_io = "0.1"
whisper-rs = "0.11"
