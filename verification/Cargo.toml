[package]
name = "termina_backend"
version = "0.1.0"
edition = "2021"
publish = false

[dependencies]
log = "=0.4.35"
termina = "=0.1.0-beta.1"
termini = "=1.0.0"
