[package]
name = "glimbot"
version = "0.1.0"
edition = "2021"
publish = false

[dependencies]
rand = "=0.8.8"
regex = "=1.13.1"
shlex = "=1.3.0"
humantime = "=2.4.0"
serenity = "=0.10.10"
tokio = { version = "=1.54.1", features = ["macros", "rt-multi-thread"] }
chrono = "=0.4.45"
percent-encoding = "=2.3.2"
structopt = "=0.3.26"
systemstat = "=0.2.7"
shell-words = "1"
