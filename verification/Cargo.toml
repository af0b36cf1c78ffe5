[package]
name = "random_num"
version = "0.1.0"
edition = "2021"
publish = false

[dependencies]
candid = "0.10"
ic-cdk = "0.17"
ic_principal = "0.1"
ic-stable-structures = "0.6"
num-bigint = "0.4"
num-traits = "0.2"
