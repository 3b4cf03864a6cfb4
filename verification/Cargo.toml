[package]
name = "gpx_kalman"
version = "0.1.0"
edition = "2021"
publish = false

[dependencies]
xml-rs = "=0.8.29"
chrono = "=0.4.45"
geoconv = "=0.8.3"
clap = { version = "=4.6.7", features = ["derive"] }
plotters = "=0.3.7"
