[package]
name = "echos_in_the_dark"
version = "0.1.0"
edition = "2021"
publish = false

[dependencies]
bevy = { version = "=0.15.1", default-features = false }
big-brain = "=0.22.0"
fastrand = "=2.5.0"
rand = "=0.9.5"
once_cell = "=1.21.4"
