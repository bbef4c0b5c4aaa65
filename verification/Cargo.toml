[package]
name = "reach"
version = "0.1.2"
edition = "2021"
publish = false

[dependencies]
anstream = "*"
anstyle = "1"
clap = { version = "4", features = ["derive"] }
comfy-table = "7"
ctrlc = "3"
futures-util = "0.3"
hostname-validator = "1"
idna = "1"
indicatif = "*"
ipnet = "2"
terminal_size = "*"
textwrap = "0.16"
tokio = { version = "1", features = ["macros", "net", "rt-multi-thread", "time"] }
tokio-util = "0.7"
unicode-general-category = "1"

[dev-dependencies]
unicode-width = "*"
