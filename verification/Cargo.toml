[package]
name = "nu_plugin_ws"
version = "0.3.2"
edition = "2021"
publish = false

[dependencies]
url = "=2.5.8"
nu-protocol = "=0.114.1"
nu-plugin = "=0.114.1"
tungstenite = "=0.30.0"
log = "=0.4.34"
env_logger = "=0.11.11"
