//! Value types: numbers, tuples, colours and matrices.

pub mod color;
pub mod float;
pub mod matrix2f;
pub mod matrix3f;
pub mod matrix4f;
pub mod point;
pub mod tuple;
pub mod vec3;
pub mod vector;
