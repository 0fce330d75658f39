[package]
name = "pathtracer"
version = "0.1.0"
edition = "2021"
publish = false

[dependencies]
rand = { version = "0.7", features = ["small_rng"] }
glm = "0.2"
bvh = "0.3"
image = { version = "0.23", default-features = false, features = ["png"] }
rayon = "1"
sdl2 = "0.34"
gl = "0.14"
oidn = "*"
assimp = "0.3"
itertools = "0.9"
