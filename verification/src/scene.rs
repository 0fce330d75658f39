//! The scene's primitive list and the two ray queries over it.
//!
//! A spatial index proposes, for one ray, the primitives whose bounds the ray
//! crosses, and the geometry code computes the ray parameter at each of them.
//! The queries here decide among those candidates: `traverse` picks the
//! nearest forward intersection, `traverse_shadow` tells whether anything
//! lies within a given distance.
//!
//! A ray parameter is carried as the bit pattern of an IEEE 754
//! single-precision number. The patterns `1 ..= MAX_TIME` are the strictly
//! positive finite numbers, and on them the order of the unsigned patterns is
//! the order of the numbers; `INFINITE_TIME`, the pattern of positive
//! infinity, follows directly. Every other pattern is zero, negative or not a
//! number, and never counts as an intersection in front of the ray.

use vstd::prelude::*;
use crate::model::Mesh;
use crate::model::Model;

verus! {

/// Bit pattern of the largest finite ray parameter.
pub const MAX_TIME: u32 = 0x7F7F_FFFF;

/// Bit pattern of an unbounded distance.
pub const INFINITE_TIME: u32 = 0x7F80_0000;

/// The pattern stands for a strictly positive finite ray parameter.
pub open spec fn is_forward(time: u32) -> bool {
    0 < time <= MAX_TIME
}

/// A forward ray parameter `time` lies within the distance `max_distance`.
/// A distance that is negative or not a number admits nothing.
pub open spec fn is_within(time: u32, max_distance: u32) -> bool {
    time <= max_distance <= INFINITE_TIME
}

/// A triangle: three vertices, the material it is shaded with, and the node
/// that the spatial index assigned to it.
#[derive(Clone, Copy, Debug)]
pub struct Triangle<V> {
    pub v0: V,
    pub v1: V,
    pub v2: V,
    pub material_id: u32,
    pub node_index: usize,
}

/// What a ray did at one primitive that the spatial index proposed: the
/// position of the primitive in the scene's list and, if the ray meets the
/// primitive's plane inside its outline, the ray parameter there.
#[derive(Clone, Copy, Debug)]
pub struct Candidate {
    pub triangle: usize,
    pub time: Option<u32>,
}

/// The nearest intersection of a ray with the scene: the position of the
/// winning candidate in the list that was asked about, the primitive it
/// names, that primitive's material, and the ray parameter.
#[derive(Clone, Copy, Debug, PartialEq, Eq, Structural)]
pub struct Hit {
    pub candidate: usize,
    pub triangle: usize,
    pub material_id: u32,
    pub time: u32,
}

impl Candidate {
    /// The candidate names one of `count` primitives and meets it in front of
    /// the ray's origin.
    pub open spec fn hits(&self, count: nat) -> bool {
        &&& self.triangle < count
        &&& self.time matches Some(t) && is_forward(t)
    }

    /// The ray parameter of a candidate that hits.
    pub open spec fn at(&self) -> u32 {
        self.time.unwrap()
    }

    /// The candidate hits and lies within `max_distance`.
    pub open spec fn blocks(&self, count: nat, max_distance: u32) -> bool {
        self.hits(count) && is_within(self.at(), max_distance)
    }
}

/// Triangle `k` of a mesh, shaded with `material_id` and not yet placed in a
/// spatial index.
pub open spec fn mesh_triangle<V>(mesh: Mesh<V>, k: int, material_id: u32) -> Triangle<V> {
    Triangle {
        v0: mesh.corner(k, 0),
        v1: mesh.corner(k, 1),
        v2: mesh.corner(k, 2),
        material_id,
        node_index: 0,
    }
}

/// The triangles of a mesh in the order of its index buffer, all shaded with
/// `material_id`.
pub open spec fn mesh_triangles<V>(mesh: Mesh<V>, material_id: u32) -> Seq<Triangle<V>> {
    Seq::new(mesh.triangle_count(), |k: int| mesh_triangle(mesh, k, material_id))
}

/// The triangles of a run of meshes, mesh after mesh, each mesh shaded with
/// the material whose identifier is the position of the mesh in the run.
pub open spec fn model_triangles<V>(meshes: Seq<Mesh<V>>) -> Seq<Triangle<V>>
    decreases meshes.len(),
{
    if meshes.len() == 0 {
        Seq::empty()
    } else {
        model_triangles(meshes.drop_last()) + mesh_triangles(
            meshes.last(),
            (meshes.len() - 1) as u32,
        )
    }
}

/// The primitives of a scene, and whether the spatial index over them is up
/// to date.
pub struct SceneGraph<V> {
    triangles: Vec<Triangle<V>>,
    built: bool,
}

impl<V> SceneGraph<V> {
    /// The primitive list.
    pub closed spec fn view(&self) -> Seq<Triangle<V>> {
        self.triangles@
    }

    /// The spatial index has been built for the present primitive list.
    pub closed spec fn is_built(&self) -> bool {
        self.built
    }

    /// Candidate `i` hits, no candidate hits nearer, and none before it hits
    /// as near.
    pub open spec fn is_nearest(&self, candidates: Seq<Candidate>, i: int) -> bool {
        &&& 0 <= i < candidates.len()
        &&& candidates[i].hits(self@.len())
        &&& forall|j: int|
            0 <= j < candidates.len() && (#[trigger] candidates[j]).hits(self@.len())
                ==> candidates[i].at() <= candidates[j].at()
        &&& forall|j: int|
            0 <= j < i && (#[trigger] candidates[j]).hits(self@.len()) ==> candidates[i].at()
                < candidates[j].at()
    }

    /// The intersection record of candidate `i`, where it hits.
    pub open spec fn hit_of(&self, candidates: Seq<Candidate>, i: int) -> Hit {
        Hit {
            candidate: i as usize,
            triangle: candidates[i].triangle,
            material_id: self@[candidates[i].triangle as int].material_id,
            time: candidates[i].at(),
        }
    }

    /// The nearest forward intersection among the candidates, the earliest of
    /// them where several are equally near; nothing before the index is
    /// built.
    pub open spec fn nearest(&self, candidates: Seq<Candidate>) -> Option<Hit> {
        if self.is_built() && exists|i: int| self.is_nearest(candidates, i) {
            Some(self.hit_of(candidates, choose|i: int| self.is_nearest(candidates, i)))
        } else {
            None
        }
    }

    /// Some candidate hits within `max_distance`; nothing before the index is
    /// built.
    pub open spec fn occluded(&self, candidates: Seq<Candidate>, max_distance: u32) -> bool {
        self.is_built() && exists|i: int|
            0 <= i < candidates.len() && (#[trigger] candidates[i]).blocks(
                self@.len(),
                max_distance,
            )
    }

    /// An empty scene whose index is not built.
    pub fn new() -> (scene: Self)
        ensures
            scene@ == Seq::<Triangle<V>>::empty(),
            !scene.is_built(),
    {
        SceneGraph { triangles: Vec::new(), built: false }
    }

    /// The primitive list, for the code that builds the spatial index and
    /// computes intersections.
    pub fn triangles(&self) -> (list: &Vec<Triangle<V>>)
        ensures
            list@ == self@,
    {
        &self.triangles
    }

    /// Whether the spatial index is up to date.
    pub fn built(&self) -> (b: bool)
        ensures
            b == self.is_built(),
    {
        self.built
    }

    /// Appends a triangle. The index, if there was one, no longer describes
    /// the list.
    pub fn add_tri(&mut self, v0: V, v1: V, v2: V, material_id: u32)
        ensures
            final(self)@ == old(self)@.push(
                (Triangle { v0, v1, v2, material_id, node_index: 0 }),
            ),
            !final(self).is_built(),
    {
        self.triangles.push(Triangle { v0, v1, v2, material_id, node_index: 0usize });
        self.built = false;
    }

    /// Appends the triangles of a mesh, in the order of its index buffer,
    /// each shaded with `material_id`.
    pub fn add_mesh(&mut self, mesh: &Mesh<V>, material_id: u32) where V: Copy
        requires
            mesh.well_formed(),
        ensures
            final(self)@ == old(self)@ + mesh_triangles(*mesh, material_id),
            final(self).is_built() == (old(self).is_built() && mesh.triangle_count() == 0),
    {
        let mut i: usize = 0;
        while i < mesh.indices.len()
            invariant
                mesh.well_formed(),
                i % 3 == 0,
                i <= mesh.indices@.len(),
                self@ == old(self)@ + mesh_triangles(*mesh, material_id).take(i as int / 3),
                self.is_built() == (old(self).is_built() && i == 0),
            decreases mesh.indices@.len() - i,
        {
            let ghost k = i as int / 3;
            let v0 = mesh.vertices[mesh.indices[i] as usize];
            let v1 = mesh.vertices[mesh.indices[i + 1] as usize];
            let v2 = mesh.vertices[mesh.indices[i + 2] as usize];
            self.add_tri(v0, v1, v2, material_id);
            i += 3;
            proof {
                let all = mesh_triangles(*mesh, material_id);
                assert(all[k] == mesh_triangle(*mesh, k, material_id));
                assert(all.take(k + 1) == all.take(k).push(all[k]));
                assert(self@ == old(self)@ + all.take(k + 1));
            }
        }
        proof {
            let all = mesh_triangles(*mesh, material_id);
            assert(all.take(i as int / 3) == all);
        }
    }

    /// Appends the triangles of every mesh of a model, mesh after mesh. The
    /// meshes are shaded with the materials 0, 1, 2, ... in their order.
    pub fn add_model(&mut self, model: &Model<V>) where V: Copy
        requires
            model.well_formed(),
            model.meshes@.len() <= u32::MAX,
        ensures
            final(self)@ == old(self)@ + model_triangles(model.meshes@),
            final(self).is_built() == (old(self).is_built() && model_triangles(
                model.meshes@,
            ).len() == 0),
    {
        let mut material_id: u32 = 0;
        let mut m: usize = 0;
        proof {
            assert(model.meshes@.take(0) == Seq::<Mesh<V>>::empty());
            assert(self@ == old(self)@ + model_triangles(model.meshes@.take(0)));
        }
        while m < model.meshes.len()
            invariant
                model.well_formed(),
                model.meshes@.len() <= u32::MAX,
                m <= model.meshes@.len(),
                material_id == m,
                self@ == old(self)@ + model_triangles(model.meshes@.take(m as int)),
                self.is_built() == (old(self).is_built() && model_triangles(
                    model.meshes@.take(m as int),
                ).len() == 0),
            decreases model.meshes@.len() - m,
        {
            let mesh = &model.meshes[m];
            proof {
                let before = model.meshes@.take(m as int);
                let after = model.meshes@.take(m + 1);
                assert(after.drop_last() == before);
                assert(after.last() == *mesh);
                assert(model_triangles(after) == model_triangles(before) + mesh_triangles(
                    *mesh,
                    material_id,
                ));
            }
            self.add_mesh(mesh, material_id);
            material_id += 1;
            m += 1;
        }
        proof {
            assert(model.meshes@.take(m as int) == model.meshes@);
        }
    }

    /// Removes every primitive, and with them the index.
    pub fn clear(&mut self)
        ensures
            final(self)@ == Seq::<Triangle<V>>::empty(),
            !final(self).is_built(),
    {
        self.triangles.clear();
        self.built = false;
    }

    /// Records that the spatial index has been built over the present list.
    pub fn build(&mut self)
        ensures
            final(self)@ == old(self)@,
            final(self).is_built(),
    {
        self.built = true;
    }

    /// Number of primitives.
    pub fn tri_count(&self) -> (n: usize)
        ensures
            n == self@.len(),
    {
        self.triangles.len()
    }

    /// Two candidates that are both nearest are the same candidate.
    pub proof fn lemma_nearest_unique(&self, candidates: Seq<Candidate>, i: int, j: int)
        requires
            self.is_nearest(candidates, i),
            self.is_nearest(candidates, j),
        ensures
            i == j,
    {
        if i < j {
            assert(candidates[i].hits(self@.len()));
        } else if j < i {
            assert(candidates[j].hits(self@.len()));
        }
    }

    /// Where some candidate hits, one of them is nearest.
    pub proof fn lemma_nearest_exists(&self, candidates: Seq<Candidate>, i: int)
        requires
            0 <= i < candidates.len(),
            candidates[i].hits(self@.len()),
        ensures
            exists|k: int| self.is_nearest(candidates, k),
        decreases candidates[i].at(), i,
    {
        if exists|j: int|
            0 <= j < candidates.len() && (#[trigger] candidates[j]).hits(self@.len())
                && candidates[j].at() < candidates[i].at() {
            let j = choose|j: int|
                0 <= j < candidates.len() && (#[trigger] candidates[j]).hits(self@.len())
                    && candidates[j].at() < candidates[i].at();
            self.lemma_nearest_exists(candidates, j);
        } else if exists|j: int|
            0 <= j < i && (#[trigger] candidates[j]).hits(self@.len()) && candidates[j].at()
                <= candidates[i].at() {
            let j = choose|j: int|
                0 <= j < i && (#[trigger] candidates[j]).hits(self@.len()) && candidates[j].at()
                    <= candidates[i].at();
            self.lemma_nearest_exists(candidates, j);
        } else {
            assert(self.is_nearest(candidates, i));
        }
    }

    /// The nearest forward intersection among the candidates that the
    /// spatial index proposed for one ray.
    pub fn traverse(&self, candidates: &Vec<Candidate>) -> (hit: Option<Hit>)
        ensures
            hit == self.nearest(candidates@),
            hit is None <==> !self.is_built() || forall|i: int|
                0 <= i < candidates@.len() ==> !(#[trigger] candidates@[i]).hits(self@.len()),
    {
        if !self.built {
            return None;
        }
        let count: usize = self.triangles.len();
        let mut closest: Option<usize> = None;
        let mut closest_t: u32 = MAX_TIME;
        let mut k: usize = 0;
        while k < candidates.len()
            invariant
                k <= candidates@.len(),
                count == self@.len(),
                closest is None ==> forall|j: int|
                    0 <= j < k ==> !(#[trigger] candidates@[j]).hits(self@.len()),
                closest matches Some(c) ==> {
                    &&& self.is_nearest(candidates@.take(k as int), c as int)
                    &&& closest_t == candidates@[c as int].at()
                },
            decreases candidates@.len() - k,
        {
            let candidate = candidates[k];
            let ghost before = candidates@.take(k as int);
            let ghost after = candidates@.take(k + 1);
            assert(forall|j: int| 0 <= j < k ==> before[j] == after[j]);
            assert(after[k as int] == candidate);
            if candidate.triangle < count {
                if let Some(t) = candidate.time {
                    if 0 < t && t <= MAX_TIME && (closest.is_none() || t < closest_t) {
                        closest = Some(k);
                        closest_t = t;
                    }
                }
            }
            k += 1;
        }
        assert(candidates@.take(k as int) == candidates@);
        match closest {
            Some(c) => {
                proof {
                    let chosen = choose|i: int| self.is_nearest(candidates@, i);
                    self.lemma_nearest_unique(candidates@, c as int, chosen);
                }
                let candidate = candidates[c];
                Some(
                    Hit {
                        candidate: c,
                        triangle: candidate.triangle,
                        material_id: self.triangles[candidate.triangle].material_id,
                        time: closest_t,
                    },
                )
            },
            None => {
                assert forall|i: int| !self.is_nearest(candidates@, i) by {
                    if 0 <= i < candidates@.len() {
                        assert(!candidates@[i].hits(self@.len()));
                    }
                }
                None
            },
        }
    }

    /// Whether anything lies in front of the ray within `max_distance`.
    /// Answers at the first candidate that does.
    pub fn traverse_shadow(&self, candidates: &Vec<Candidate>, max_distance: u32) -> (shadowed:
        bool)
        ensures
            shadowed == self.occluded(candidates@, max_distance),
    {
        if !self.built || max_distance > INFINITE_TIME {
            return false;
        }
        let count: usize = self.triangles.len();
        let mut k: usize = 0;
        while k < candidates.len()
            invariant
                k <= candidates@.len(),
                count == self@.len(),
                self.is_built(),
                max_distance <= INFINITE_TIME,
                forall|j: int|
                    0 <= j < k ==> !(#[trigger] candidates@[j]).blocks(self@.len(), max_distance),
            decreases candidates@.len() - k,
        {
            let candidate = candidates[k];
            if candidate.triangle < count {
                if let Some(t) = candidate.time {
                    if 0 < t && t <= MAX_TIME && t <= max_distance {
                        assert(candidates@[k as int].blocks(self@.len(), max_distance));
                        return true;
                    }
                }
            }
            k += 1;
        }
        false
    }

    /// The occlusion query agrees with the nearest-hit query: something lies
    /// within `max_distance` exactly when there is a nearest intersection and
    /// it lies within `max_distance`.
    pub proof fn lemma_shadow_is_nearest_within(
        &self,
        candidates: Seq<Candidate>,
        max_distance: u32,
    )
        ensures
            self.occluded(candidates, max_distance) <==> (self.nearest(candidates) matches Some(
                hit,
            ) && is_within(hit.time, max_distance)),
    {
        if self.occluded(candidates, max_distance) {
            let i = choose|i: int|
                0 <= i < candidates.len() && (#[trigger] candidates[i]).blocks(
                    self@.len(),
                    max_distance,
                );
            self.lemma_nearest_exists(candidates, i);
            let k = choose|k: int| self.is_nearest(candidates, k);
            assert(candidates[k].at() <= candidates[i].at());
        }
        if self.nearest(candidates) matches Some(hit) && is_within(hit.time, max_distance) {
            let k = choose|k: int| self.is_nearest(candidates, k);
            assert(candidates[k].blocks(self@.len(), max_distance));
        }
    }
}

} // verus!
