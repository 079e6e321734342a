[package]
name = "agent_linking"
version = "0.1.0"
edition = "2021"
publish = false

[dependencies]
hdk = "=0.7.0"
hdi = "=0.8.0"
serde = "*"
holochain_serialized_bytes = "*"
