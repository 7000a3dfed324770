[package]
name = "symphonia_c"
version = "0.1.0"
edition = "2021"
publish = false

[dependencies]
symphonia = { version = "0.6", default-features = false, features = ["flac", "mpa", "mp3", "ogg", "pcm", "vorbis", "wav"] }
