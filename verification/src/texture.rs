use vstd::prelude::*;

use crate::transform::Transform;

verus! {

/// A texture that has the same value at every point.
pub struct ConstantTexture<T> where T: Copy + Sync + Send {
    value: T,
}

impl<T> ConstantTexture<T> where T: Copy + Sync + Send {
    /// The value that the texture has everywhere.
    pub closed spec fn spec_value(self) -> T {
        self.value
    }

    pub fn new(value: T) -> (r: ConstantTexture<T>)
        ensures
            r.spec_value() == value,
    {
        ConstantTexture { value }
    }

    /// The texture's value, which does not depend on where it is evaluated.
    pub fn value(&self) -> (r: T)
        ensures
            r == self.spec_value(),
    {
        self.value
    }
}

/// The mapping of a point to texture space by a fixed transformation.
pub struct IdentityMapping3D<T> {
    world_to_texture: Transform<T>,
}

impl<T> IdentityMapping3D<T> where T: Copy {
    /// The transformation from world space to texture space.
    pub closed spec fn spec_world_to_texture(self) -> Transform<T> {
        self.world_to_texture
    }

    pub fn new(world_to_texture: Transform<T>) -> (r: IdentityMapping3D<T>)
        ensures
            r.spec_world_to_texture() == world_to_texture,
    {
        IdentityMapping3D { world_to_texture }
    }

    /// The transformation that the mapping applies.
    pub fn world_to_texture(&self) -> (r: &Transform<T>)
        ensures
            *r == self.spec_world_to_texture(),
    {
        &self.world_to_texture
    }
}

} // verus!
