[package]
name = "events"
version = "0.1.0"
edition = "2021"
publish = false

[dependencies]
convert_case = "=0.12.0"
enum_index_repr = "=0.2.1"
quote = "=1.0.47"
strum = { version = "=0.28.0", features = ["derive"] }
syn = { version = "=3.0.9", features = ["full"] }
