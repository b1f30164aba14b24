[package]
name = "roadmap_store"
version = "0.1.0"
edition = "2021"
publish = false

[dependencies]
diesel = { version = "2", features = ["sqlite"] }
diesel_migrations = "2"
libsqlite3-sys = { version = "*", features = ["bundled"] }
log = "0.4"
