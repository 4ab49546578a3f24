[package]
name = "ipset_dns"
version = "0.1.0"
edition = "2021"
publish = false

[dependencies]
clap = "2"
crslmnl = "*"
dns-parser = "0.8"
env_logger = "0.6"
glob = "0.3"
libc = "0.2"
log = "0.4"
net2 = "0.2"
regex = "1"
serde = "1"
serde_derive = "1"
toml = "0.5"
