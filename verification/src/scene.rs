//! Scene types: rays, shapes, objects, lights and the world.

pub mod canvas;
pub mod light;
pub mod object;
pub mod ray;
pub mod sphere;
pub mod transforms;
pub mod world;
