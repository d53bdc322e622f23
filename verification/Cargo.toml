[package]
name = "nu_completion"
version = "0.1.0"
edition = "2021"
publish = false

[dependencies]
nu-protocol = "=0.60.0"
nu-parser = "=0.60.0"
nu-engine = "=0.60.0"
nu-path = "=0.60.0"
reedline = "0.3.0"
is_executable = "1.0.1"
glob = "0.3.0"
pathdiff = "0.2.1"
umask = "1.0.0"
users = "0.11.0"
chrono = "0.4.19"
