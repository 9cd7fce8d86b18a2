[package]
name = "field_exts"
version = "0.1.0"
edition = "2021"
publish = false

[dependencies]
halo2_proofs = "=0.3.5"
halo2curves = "=0.1.0"
ff = "0.13"
primitive-types = "=0.12.2"
