[package]
name = "motion_inputs"
version = "0.1.0"
edition = "2021"
publish = false

[dependencies]
color-eyre = "*"
gilrs = "*"
ratatui = "*"
