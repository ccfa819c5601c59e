[package]
name = "rugix_ctrl"
version = "0.1.0"
edition = "2021"
publish = false

[dependencies]
byte-calc = "*"
clap = { version = "4", features = ["derive"] }
hashbrown = "*"
hex = "0.4"
indexmap = { version = "2", features = ["serde"] }
jiff = "*"
libc = "0.2"
nix = { version = "*", features = ["fs", "mount", "poll", "process", "reboot", "term", "user"] }
reportify = "*"
serde = { version = "1", features = ["derive"] }
serde_ignored = "0.1"
serde_json = "1"
sha2 = "0.10"
si-crypto-hashes = "*"
tar = "0.4"
tempfile = "3"
toml = "0.8"
tracing = "0.1"
ureq = "3"
uuid = { version = "1", features = ["v4"] }
xscript = "*"
