//! Indexed triangle meshes as a loader hands them over.
//!
//! The library never looks inside a vertex: the vertex type is a parameter,
//! and only the index structure of a mesh is examined here.

use vstd::prelude::*;

verus! {

/// One mesh: a vertex buffer and an index buffer that names the corners of
/// its triangles, three entries per triangle.
#[derive(Debug)]
pub struct Mesh<V> {
    pub vertices: Vec<V>,
    pub indices: Vec<u32>,
}

/// A model: the meshes of one asset, in the order of the asset.
#[derive(Debug)]
pub struct Model<V> {
    pub meshes: Vec<Mesh<V>>,
}

impl<V> Mesh<V> {
    /// The index buffer holds whole triangles and every entry names a vertex
    /// of this mesh.
    pub open spec fn well_formed(&self) -> bool {
        &&& self.indices@.len() % 3 == 0
        &&& forall|i: int|
            0 <= i < self.indices@.len() ==> (#[trigger] self.indices@[i]) < self.vertices@.len()
    }

    /// Number of triangles that the index buffer describes.
    pub open spec fn triangle_count(&self) -> nat {
        self.indices@.len() / 3
    }

    /// The vertex at corner `corner` (0, 1 or 2) of triangle `k`.
    pub open spec fn corner(&self, k: int, corner: int) -> V {
        self.vertices@[self.indices@[3 * k + corner] as int]
    }

    /// Decides `well_formed`.
    pub fn is_well_formed(&self) -> (ok: bool)
        ensures
            ok == self.well_formed(),
    {
        if self.indices.len() % 3 != 0 {
            return false;
        }
        let count: usize = self.vertices.len();
        let mut i: usize = 0;
        while i < self.indices.len()
            invariant
                i <= self.indices@.len(),
                count == self.vertices@.len(),
                forall|j: int| 0 <= j < i ==> (#[trigger] self.indices@[j]) < count,
            decreases self.indices@.len() - i,
        {
            if self.indices[i] as usize >= count {
                return false;
            }
            i += 1;
        }
        true
    }
}

impl<V> Default for Mesh<V> {
    /// The mesh without vertices and without triangles.
    fn default() -> (mesh: Self)
        ensures
            mesh.vertices@.len() == 0,
            mesh.indices@.len() == 0,
    {
        Mesh { vertices: Vec::new(), indices: Vec::new() }
    }
}

impl<V> Model<V> {
    /// Every mesh of the model is well formed.
    pub open spec fn well_formed(&self) -> bool {
        forall|m: int| 0 <= m < self.meshes@.len() ==> (#[trigger] self.meshes@[m]).well_formed()
    }

    /// Decides `well_formed`.
    pub fn is_well_formed(&self) -> (ok: bool)
        ensures
            ok == self.well_formed(),
    {
        let mut m: usize = 0;
        while m < self.meshes.len()
            invariant
                m <= self.meshes@.len(),
                forall|j: int| 0 <= j < m ==> (#[trigger] self.meshes@[j]).well_formed(),
            decreases self.meshes@.len() - m,
        {
            if !self.meshes[m].is_well_formed() {
                return false;
            }
            m += 1;
        }
        true
    }
}

impl<V> Default for Model<V> {
    /// The model without meshes.
    fn default() -> (model: Self)
        ensures
            model.meshes@.len() == 0,
    {
        Model { meshes: Vec::new() }
    }
}

} // verus!
