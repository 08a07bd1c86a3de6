[package]
name = "twitch_plays_btd"
version = "0.1.0"
edition = "2021"
publish = false

[dependencies]
mki = "*"
mouse-rs = "*"
parking_lot = "*"
tokio = { version = "*", features = ["rt-multi-thread", "macros", "time"] }
twitch-irc = "*"
