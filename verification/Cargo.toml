[package]
name = "the_ray_tracer_challenge"
version = "0.1.0"
edition = "2021"
publish = false

[dependencies]
float-cmp = "*"
