[package]
name = "zkevm_init_state"
version = "0.1.0"
edition = "2021"
publish = false

[dependencies]
anyhow = "1"
axiom-codec = "=0.2.1"
axiom-eth = { version = "=0.4.3", default-features = false, features = ["halo2-axiom"] }
clap = { version = "4", features = ["derive"] }
ethers-core = "=2.0.14"
halo2curves-axiom = "=0.7.3"
rand_chacha = "=0.3.1"
serde = { version = "1", features = ["derive"] }
tokio = { version = "1", features = ["rt-multi-thread", "macros"] }
