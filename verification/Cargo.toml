[package]
name = "split_or_steal"
version = "0.1.0"
edition = "2021"
publish = false

[dependencies]
anchor-lang = { version = "=0.30.1", features = ["init-if-needed"] }
anchor-spl = { version = "=0.30.1", default-features = false, features = ["token", "token_2022", "associated_token"] }
num = "=0.4.3"
rand = "=0.8.8"
rand_chacha = "=0.3.1"
solana-security-txt = "=1.1.3"
