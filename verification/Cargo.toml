[package]
name = "libcryptsetup_token_kbs"
version = "0.1.0"
edition = "2021"
publish = false

[dependencies]
base64 = "=0.22.1"
toml = "=0.8.23"
serde_json = "1"
libc = "0.2"
smbios-lib = "*"
zeroize = "1"
log = "0.4"
env_logger = "0.11"
