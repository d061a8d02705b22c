[package]
name = "dlc_installer"
version = "0.1.0"
edition = "2021"
publish = false

[dependencies]
console = "0.15"
futures-util = "0.3"
indicatif = "0.17"
reqwest = { version = "0.11", features = ["stream"] }
sevenz-rust = { version = "0.5", features = ["aes256"] }
steamlocate = "1"
thiserror = "1"
tokio = { version = "1", features = ["macros", "rt-multi-thread"] }
