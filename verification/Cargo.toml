[package]
name = "musicpi_display"
version = "0.1.0"
edition = "2021"
publish = false

[dependencies]
bus = "*"
chrono = "*"
clap = "*"
dft = "*"
mpd = "*"
pulse-simple = "*"
spidev = "*"
