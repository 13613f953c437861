//! Objects: a shape with the material that covers it.
use vstd::prelude::*;
use crate::geometry::GeometryType;
use crate::material::DesMaterial;

verus! {

/// A shape of a scene together with its material, both borrowed from the
/// scene.
pub struct Object<'a, 'b> {
    pub geometry: &'b GeometryType,
    pub material: &'a DesMaterial,
}

} // verus!
