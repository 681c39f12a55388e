[package]
name = "swg"
version = "0.1.0"
edition = "2021"
publish = false

[dependencies]
array2d = "0.3"
chrono = "0.4"
clap = "2"
crossterm = "0.25"
rand = "0.8"
rand_pcg = "0.3"
rand_seeder = "0.2"
serde = { version = "1", features = ["derive"] }
serde_json = "1"
tui = "0.19"
