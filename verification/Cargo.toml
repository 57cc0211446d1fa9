[package]
name = "explode"
version = "0.1.0"
edition = "2021"
publish = false

[dependencies]
vte = "=0.8.0"
unicode-width = "=0.1.14"
ttyrec = "=0.4.0"
env_logger = "=0.7.1"
tokio = "=0.1.22"
futures = "=0.1.31"
mio = "=0.6.23"
crossterm = "=0.13.3"
vt100 = "=0.15.2"
tokio-pty-process-stream = "=0.2.0"
