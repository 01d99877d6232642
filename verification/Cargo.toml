[package]
name = "oxideplay"
version = "0.1.0"
edition = "2021"
publish = false

[dependencies]
ringbuf = "=0.4.8"
sdl2 = "=0.38.0"
oxideav-core = "=0.0.8"
oxideav-codec = "=0.0.6"
oxideav-container = "=0.0.5"
oxideav-sysaudio = "=0.1.1"
