//! A small ray-tracing kernel whose bookkeeping is verified.
//!
//! Real numbers are carried as IEEE-754 binary64 bit patterns
//! ([`primitives::float::Float`]).  Everything that is exact on bit patterns is
//! proved here: classification, ordering, negation, the layout of matrices and
//! transforms, the ordering of intersections and the choice of the visible
//! hit.  Rounded arithmetic is left to the caller, who hands its results in.

pub mod primitives;
pub mod scene;
