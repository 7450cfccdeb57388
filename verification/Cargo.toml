[package]
name = "alight"
version = "0.1.0"
edition = "2021"
publish = false

[dependencies]
async-channel = "*"
clap = { version = "*", features = ["derive"] }
clap-verbosity-flag = "*"
cntp_i18n = "*"
indicatif = "*"
libc = "*"
ringbuf = "*"
rubato = "*"
smol = "*"
symphonia = "*"
tracing = "*"
tracing-subscriber = "*"
