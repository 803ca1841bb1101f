[package]
name = "trash_shell"
version = "0.1.0"
edition = "2021"
publish = false

[dependencies]
crossterm = "*"
ctrlc = "*"
dirs = "*"
which = "*"
winapi = { version = "0.3", features = ["consoleapi", "processenv"] }
