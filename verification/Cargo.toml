[package]
name = "lsc-utils"
version = "0.2.0"
edition = "2021"
publish = false

[dependencies]
anyhow = "1"
bitflags = "2"
clap = { version = "4", features = ["derive"] }
csscolorparser = "*"
git2 = { version = "0.20", default-features = false }
jiff = "0.2"
once_cell = "1"
serde_yml = "*"
tracing = "0.1"
tracing-subscriber = { version = "0.3", features = ["env-filter"] }
unicode-width = "0.2"
uzers = "*"

[dev-dependencies]
tempfile = "3"
