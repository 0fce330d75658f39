//! Loading of materials.
//!
//! A material is described by a value of its own type, so loading one is
//! taking a copy of the description.

use vstd::prelude::*;
use crate::resource_manager::ResourceLoader;

verus! {

/// The loader of the material table.
pub struct MaterialLoader {}

impl<M: Copy> ResourceLoader<M> for MaterialLoader {
    type Args = M;

    /// A copy of `details`; this never fails.
    fn load(&self, details: &M) -> (loaded: Result<M, String>)
        ensures
            loaded == Ok::<M, String>(*details),
    {
        Ok(*details)
    }
}

} // verus!
