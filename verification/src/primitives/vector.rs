//! The name `Vector` for directions.

use vstd::prelude::*;
use crate::primitives::vec3::Vec3;

verus! {

/// A free direction or displacement: another name for [`Vec3`].
pub type Vector = Vec3;

} // verus!
