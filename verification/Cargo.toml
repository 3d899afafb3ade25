[package]
name = "sp1_prover"
version = "0.1.0"
edition = "2021"
publish = false

[dependencies]
sp1-primitives = "=5.2.4"
lru = "=0.18.5"
p3-baby-bear = "=0.2.3-succinct"
p3-field = "=0.2.3-succinct"
