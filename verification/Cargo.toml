[package]
name = "devil_arm"
version = "0.1.0"
edition = "2021"
publish = false

[dependencies]
pio = "=0.4.0"
embassy-sync = "=0.8.0"
embassy-time = "=0.5.1"
embassy-futures = "=0.1.2"
microfft = "=0.6.0"
emg-filter-rs = "=0.1.0"
log = "=0.4.34"
burn = { version = "0.16.1", default-features = false, features = ["ndarray"] }
