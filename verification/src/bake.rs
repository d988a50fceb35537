//! Deformation of objects: which numbers have to be computed for an object, and
//! the computed numbers.
//!
//! Blending morph targets, skinning and composing instance matrices is
//! floating-point arithmetic. This module decides what enters that arithmetic and
//! describes its results; the arithmetic itself is the caller's.

use crate::float::F32;
use crate::scene::{
    identity, one, zero, zero_vec3, InstancesBuffer3d, Mat4, Object3d, Vec3, ONE_BITS,
};
use vstd::prelude::*;

verus! {

/// The bit pattern of `1e-4`: an object emits light where its emissive components
/// add up to more than this.
pub const EMISSIVE_THRESHOLD_BITS: u32 = 0x38d1_b717;

/// One weighted morph target: its weight, and where its deltas start.
#[derive(Clone, Copy, Debug, PartialEq, Eq, Structural)]
pub struct MorphStep {
    pub weight: F32,
    pub base: usize,
}

/// How to blend the morph targets of an object: for every step in order, add
/// `weight` times delta `base + v` to vertex `v`, for every `v` below
/// `vertex_count`.
#[derive(Debug)]
pub struct MorphPlan {
    pub vertex_count: usize,
    pub steps: Vec<MorphStep>,
    /// Whether the normals are blended too.
    pub blends_normals: bool,
}

/// What places one instance of an object and tints it.
#[derive(Clone, Copy, Debug)]
pub struct InstanceInputs {
    /// World-space offset.
    pub position: Vec3,
    /// Deformation, as three matrix columns.
    pub deform: [Vec3; 3],
    /// Color that multiplies the object's color.
    pub color: [F32; 4],
}

/// Vertex positions, and normals where the targets have normal deltas, after the
/// morph targets were blended in.
#[derive(Debug)]
pub struct MorphedVertices {
    pub positions: Vec<Vec3>,
    pub normals: Option<Vec<Vec3>>,
}

/// A vertex after skinning, in world space.
#[derive(Clone, Copy, Debug, PartialEq, Eq, Structural)]
pub struct SkinnedVertex {
    pub position: Vec3,
    pub normal: Vec3,
}

/// The computed numbers of one placement of an object.
#[derive(Debug)]
pub struct BakedInstance {
    /// Places the mesh in the world (unused for a skinned object).
    pub object_to_world: Mat4,
    /// The inverse of the placement (unused for a skinned object).
    pub world_to_object: Mat4,
    /// The object's color times the instance's.
    pub base_color: [F32; 4],
    /// The vertices in world space; needed for an emissive object that is not
    /// skinned.
    pub world_positions: Vec<Vec3>,
}

/// The computed numbers of an object.
#[derive(Debug)]
pub struct BakedObject {
    pub morphed: Option<MorphedVertices>,
    pub skinned: Option<Vec<SkinnedVertex>>,
    /// The sum of the emissive components.
    pub emissive_sum: F32,
    /// One entry per placement.
    pub instances: Vec<BakedInstance>,
}

/// The number differs from zero (a NaN does).
pub open spec fn nonzero(v: F32) -> bool {
    !v.same_number(zero())
}

pub open spec fn min_nat(a: nat, b: nat) -> nat {
    if a <= b {
        a
    } else {
        b
    }
}

/// The steps of the first `n` targets; targets of weight zero are left out.
pub open spec fn morph_steps(weights: Seq<F32>, vertex_count: nat, n: nat) -> Seq<MorphStep>
    decreases n,
{
    if n == 0 {
        Seq::empty()
    } else {
        let before = morph_steps(weights, vertex_count, (n - 1) as nat);
        let weight = weights[n - 1];
        if nonzero(weight) {
            before.push(MorphStep { weight, base: ((n - 1) * vertex_count) as usize })
        } else {
            before
        }
    }
}

impl Object3d {
    /// The mesh has morph targets in main memory.
    pub open spec fn has_deltas(self) -> bool {
        self.mesh.morph matches Some(morph) && morph.positions is Some
    }

    /// The object is morphed: its mesh has morph targets in main memory, and some
    /// weight is not zero.
    pub open spec fn morphs(self) -> bool {
        &&& self.has_deltas()
        &&& exists|i: int|
            0 <= i < self.data.morph_weights@.len() && nonzero(
                #[trigger] self.data.morph_weights@[i],
            )
    }

    /// The mesh is drawn as it is, neither skinned nor morphed, so that objects with the
    /// same mesh can share one copy of it.
    pub open spec fn undeformed(self) -> bool {
        !self.skinned() && !self.morphs()
    }

    /// Morphing also blends the normals.
    pub open spec fn blends_normals(self) -> bool {
        self.mesh.morph->0.normals is Some
    }

    /// How many targets have a weight.
    pub open spec fn weighted_targets(self) -> nat {
        min_nat(self.mesh.morph->0.target_count as nat, self.data.morph_weights@.len())
    }

    /// How many vertices morphing moves.
    pub open spec fn morphed_vertices(self) -> nat {
        min_nat(self.coords().len(), self.mesh.morph->0.vertex_count as nat)
    }

    /// The normals of the mesh cover the vertices that morphing blends.
    pub open spec fn normals_covered(self) -> bool {
        self.blends_normals() ==> (self.mesh.normals matches Some(normals)
            ==> self.morphed_vertices() <= normals@.len())
    }

    /// The deltas of every target with a weight cover what morphing reads of them, and
    /// the normals cover what it blends.
    pub open spec fn morph_covered(self) -> bool {
        let morph = self.mesh.morph->0;
        forall|t: int|
            0 <= t < self.weighted_targets() && nonzero(#[trigger] self.data.morph_weights@[t])
                ==> {
                let end = t * morph.vertex_count + self.morphed_vertices();
                &&& end <= morph.positions->0@.len()
                &&& morph.normals matches Some(normals) ==> end <= normals@.len()
                &&& self.normals_covered()
            }
    }

    /// The palette matrix of a joint; the identity where there is none.
    pub open spec fn joint_matrix(palette: Seq<Mat4>, joint: u32) -> Mat4 {
        if joint < palette.len() {
            palette[joint as int]
        } else {
            identity()
        }
    }
}

/// The offset of an instance; zero where none is given.
pub open spec fn instance_position(instances: InstancesBuffer3d, inst: int) -> Vec3 {
    match instances.positions {
        Some(positions) if inst < positions@.len() => positions@[inst],
        _ => zero_vec3(),
    }
}

/// The deformation of an instance; the identity where its three columns are not
/// given.
pub open spec fn instance_deform(instances: InstancesBuffer3d, inst: int) -> [Vec3; 3] {
    match instances.deformations {
        Some(d) if d@.len() >= inst * 3 + 3 => [d@[inst * 3], d@[inst * 3 + 1], d@[inst * 3 + 2]],
        _ => [
            Vec3 { x: one(), y: zero(), z: zero() },
            Vec3 { x: zero(), y: one(), z: zero() },
            Vec3 { x: zero(), y: zero(), z: one() },
        ],
    }
}

/// The color of an instance; white where none is given.
pub open spec fn instance_color(instances: InstancesBuffer3d, inst: int) -> [F32; 4] {
    match instances.colors {
        Some(colors) if inst < colors@.len() => colors@[inst],
        _ => [one(), one(), one(), one()],
    }
}

impl BakedObject {
    /// The object emits light.
    pub open spec fn emits(self) -> bool {
        F32 { bits: EMISSIVE_THRESHOLD_BITS }.less(self.emissive_sum)
    }

    /// The computed numbers are those that `object` calls for.
    pub open spec fn fits(self, object: Object3d) -> bool {
        let n = object.coords().len();
        &&& self.morphed is Some <==> object.morphs()
        &&& self.morphed matches Some(m) ==> {
            &&& m.positions@.len() == n
            &&& m.normals is Some <==> object.blends_normals()
            &&& m.normals matches Some(normals) ==> normals@.len() >= n
        }
        &&& self.skinned is Some <==> object.skinned()
        &&& self.skinned matches Some(vertices) ==> vertices@.len() == n
        &&& self.instances@.len() == object.placements()
        &&& self.emits() ==> {
            &&& forall|j: int|
                0 <= j < object.faces().len() ==> face_within(#[trigger] object.faces()[j], n)
            &&& !object.skinned() ==> forall|k: int|
                0 <= k < self.instances@.len()
                    ==> (#[trigger] self.instances@[k]).world_positions@.len() == n
        }
    }
}

/// The face refers to vertices below `n`.
pub open spec fn face_within(face: [u32; 3], n: nat) -> bool {
    face[0] < n && face[1] < n && face[2] < n
}

impl Object3d {
    /// Whether the mesh has morph targets in main memory.
    pub fn is_delta_resident(&self) -> (r: bool)
        ensures
            r == self.has_deltas(),
    {
        match &self.mesh.morph {
            Some(morph) => morph.positions.is_some(),
            None => false,
        }
    }

    /// Whether the object is morphed.
    pub fn is_morphed(&self) -> (r: bool)
        ensures
            r == self.morphs(),
    {
        if !self.is_delta_resident() {
            return false;
        }
        let weights = &self.data.morph_weights;
        let zero_number = F32::from_bits(0);
        let mut i: usize = 0;
        while i < weights.len()
            invariant
                i <= weights.len(),
                weights == self.data.morph_weights,
                zero_number == zero(),
                self.has_deltas(),
                forall|j: int| 0 <= j < i ==> !nonzero(#[trigger] weights@[j]),
            decreases weights.len() - i,
        {
            if !weights[i].num_eq(zero_number) {
                assert(nonzero(self.data.morph_weights@[i as int]));
                return true;
            }
            i = i + 1;
        }
        false
    }

    /// Whether the mesh is drawn as it is, neither skinned nor morphed.
    pub fn is_undeformed(&self) -> (r: bool)
        ensures
            r == self.undeformed(),
    {
        !self.is_skinned() && !self.is_morphed()
    }

    /// How to blend the object's morph targets; `None` where the deltas are not in main
    /// memory. Weights that are zero give no steps, so that the vertices stay as they
    /// are where all of them are.
    pub fn cpu_morph(&self) -> (plan: Option<MorphPlan>)
        requires
            self.mesh.coords is Some,
            self.has_deltas() ==> self.morph_covered(),
        ensures
            plan is Some <==> self.has_deltas(),
            plan matches Some(p) ==> {
                &&& p.vertex_count == self.morphed_vertices()
                &&& p.steps@ == morph_steps(
                    self.data.morph_weights@,
                    self.mesh.morph->0.vertex_count as nat,
                    self.weighted_targets(),
                )
                &&& p.blends_normals == self.blends_normals()
            },
    {
        if !self.is_delta_resident() {
            return None;
        }
        match (&self.mesh.morph, &self.mesh.coords) {
            (Some(morph), Some(coords)) => {
                let weights = &self.data.morph_weights;
                let nv: usize = morph.vertex_count;
                let nt: usize = if morph.target_count <= weights.len() {
                    morph.target_count
                } else {
                    weights.len()
                };
                let count: usize = if coords.len() <= nv {
                    coords.len()
                } else {
                    nv
                };
                let zero_number = F32::from_bits(0);
                let mut steps: Vec<MorphStep> = Vec::new();
                let mut t: usize = 0;
                while t < nt
                    invariant
                        t <= nt,
                        nt == self.weighted_targets(),
                        nt <= weights.len(),
                        weights == self.data.morph_weights,
                        self.mesh.morph == Some(*morph),
                        nv == morph.vertex_count,
                        zero_number == zero(),
                        self.morph_covered(),
                        steps@ == morph_steps(weights@, nv as nat, t as nat),
                    decreases nt - t,
                {
                    let weight = weights[t];
                    if !weight.num_eq(zero_number) {
                        assert(nonzero(self.data.morph_weights@[t as int]));
                        assert(morph.positions->0.len() <= usize::MAX);
                        assert(0 <= t * nv) by (nonlinear_arith);
                        steps.push(MorphStep { weight, base: t * nv });
                    }
                    t = t + 1;
                }
                Some(
                    MorphPlan {
                        vertex_count: count,
                        steps,
                        blends_normals: morph.normals.is_some(),
                    },
                )
            },
            _ => None,
        }
    }

    /// Whether the morph deltas cover what morphing reads of them.
    pub fn is_morph_covered(&self) -> (r: bool)
        requires
            self.mesh.coords is Some,
            self.has_deltas(),
        ensures
            r == self.morph_covered(),
    {
        match (&self.mesh.morph, &self.mesh.coords) {
            (Some(morph), Some(coords)) => match &morph.positions {
                Some(positions) => {
                    let weights = &self.data.morph_weights;
                    let nv: usize = morph.vertex_count;
                    let nt: usize = if morph.target_count <= weights.len() {
                        morph.target_count
                    } else {
                        weights.len()
                    };
                    let count: usize = if coords.len() <= nv {
                        coords.len()
                    } else {
                        nv
                    };
                    let zero_number = F32::from_bits(0);
                    let normals_covered = match (&morph.normals, &self.mesh.normals) {
                        (Some(_), Some(normals)) => count <= normals.len(),
                        _ => true,
                    };
                    let mut t: usize = 0;
                    while t < nt
                        invariant
                            t <= nt,
                            nt == self.weighted_targets(),
                            nt <= weights.len(),
                            weights == self.data.morph_weights,
                            normals_covered == self.normals_covered(),
                            self.mesh.morph == Some(*morph),
                            morph.positions == Some(*positions),
                            nv == morph.vertex_count,
                            count == self.morphed_vertices(),
                            zero_number == zero(),
                            forall|s: int|
                                0 <= s < t && nonzero(#[trigger] self.data.morph_weights@[s]) ==> {
                                    let end = s * morph.vertex_count + self.morphed_vertices();
                                    &&& end <= morph.positions->0@.len()
                                    &&& morph.normals matches Some(normals) ==> end
                                        <= normals@.len()
                                    &&& self.normals_covered()
                                },
                        decreases nt - t,
                    {
                        if !weights[t].num_eq(zero_number) {
                            assert(nonzero(self.data.morph_weights@[t as int]));
                            assert(0 <= t * nv <= (u64::MAX as int) * (u64::MAX as int))
                                by (nonlinear_arith)
                                requires
                                    t <= u64::MAX,
                                    nv <= u64::MAX,
                            ;
                            let end: u128 = (t as u128) * (nv as u128) + (count as u128);
                            if end > positions.len() as u128 || !normals_covered {
                                return false;
                            }
                            match &morph.normals {
                                Some(normals) => {
                                    if end > normals.len() as u128 {
                                        return false;
                                    }
                                },
                                None => {},
                            }
                        }
                        t = t + 1;
                    }
                    true
                },
                None => true,
            },
            _ => true,
        }
    }

    /// The palette matrices that deform a vertex, one per joint. A joint outside
    /// the palette stands for the identity.
    pub fn skin_matrices(palette: &Vec<Mat4>, joints: [u32; 4]) -> (matrices: [Mat4; 4])
        ensures
            forall|i: int|
                0 <= i < 4 ==> #[trigger] matrices@[i] == Object3d::joint_matrix(
                    palette@,
                    joints@[i],
                ),
    {
        [
            palette_matrix(palette, joints[0]),
            palette_matrix(palette, joints[1]),
            palette_matrix(palette, joints[2]),
            palette_matrix(palette, joints[3]),
        ]
    }
}

/// The identity matrix.
pub fn identity_matrix() -> (m: Mat4)
    ensures
        m == identity(),
{
    let zero_number = F32::from_bits(0);
    let one_number = F32::from_bits(ONE_BITS);
    [
        [one_number, zero_number, zero_number, zero_number],
        [zero_number, one_number, zero_number, zero_number],
        [zero_number, zero_number, one_number, zero_number],
        [zero_number, zero_number, zero_number, one_number],
    ]
}

fn palette_matrix(palette: &Vec<Mat4>, joint: u32) -> (m: Mat4)
    ensures
        m == Object3d::joint_matrix(palette@, joint),
{
    if (joint as usize) < palette.len() {
        palette[joint as usize]
    } else {
        identity_matrix()
    }
}

/// What places instance `inst` and tints it.
pub fn instance_inputs(instances: &InstancesBuffer3d, inst: usize) -> (inputs: InstanceInputs)
    ensures
        inputs.position == instance_position(*instances, inst as int),
        inputs.deform == instance_deform(*instances, inst as int),
        inputs.color == instance_color(*instances, inst as int),
{
    let zero_number = F32::from_bits(0);
    let one_number = F32::from_bits(ONE_BITS);
    let position = match &instances.positions {
        Some(positions) if inst < positions.len() => positions[inst],
        _ => Vec3 { x: zero_number, y: zero_number, z: zero_number },
    };
    let deform = match &instances.deformations {
        Some(d) if d.len() / 3 > inst => [d[inst * 3], d[inst * 3 + 1], d[inst * 3 + 2]],
        _ => [
            Vec3 { x: one_number, y: zero_number, z: zero_number },
            Vec3 { x: zero_number, y: one_number, z: zero_number },
            Vec3 { x: zero_number, y: zero_number, z: one_number },
        ],
    };
    let color = match &instances.colors {
        Some(colors) if inst < colors.len() => colors[inst],
        _ => [one_number, one_number, one_number, one_number],
    };
    InstanceInputs { position, deform, color }
}

impl BakedObject {
    /// Whether the object emits light.
    pub fn is_emissive(&self) -> (r: bool)
        ensures
            r == self.emits(),
    {
        F32::from_bits(EMISSIVE_THRESHOLD_BITS).lt(self.emissive_sum)
    }

    /// Whether the computed numbers are those that `object` calls for.
    pub fn is_fit(&self, object: &Object3d) -> (r: bool)
        requires
            object.has_geometry(),
        ensures
            r == self.fits(*object),
    {
        match (&object.mesh.coords, &object.mesh.faces) {
            (Some(coords), Some(faces)) => {
                let n: usize = coords.len();
                if self.morphed.is_some() != object.is_morphed() {
                    return false;
                }
                match (&self.morphed, &object.mesh.morph) {
                    (Some(m), Some(morph)) => {
                        if m.positions.len() != n || m.normals.is_some()
                            != morph.normals.is_some() {
                            return false;
                        }
                        match &m.normals {
                            Some(normals) => {
                                if normals.len() < n {
                                    return false;
                                }
                            },
                            None => {},
                        }
                    },
                    _ => {},
                }
                let skinned = object.is_skinned();
                match &self.skinned {
                    Some(vertices) => {
                        if !skinned || vertices.len() != n {
                            return false;
                        }
                    },
                    None => {
                        if skinned {
                            return false;
                        }
                    },
                }
                if self.instances.len() != object.placement_count() {
                    return false;
                }
                if !self.is_emissive() {
                    return true;
                }
                let mut j: usize = 0;
                while j < faces.len()
                    invariant
                        j <= faces.len(),
                        faces@ == object.faces(),
                        forall|i: int|
                            0 <= i < j ==> face_within(#[trigger] object.faces()[i], n as nat),
                        n == object.coords().len(),
                        self.emits(),
                    decreases faces.len() - j,
                {
                    let face: &[u32; 3] = &faces[j];
                    if face[0] as usize >= n || face[1] as usize >= n || face[2] as usize >= n {
                        assert(!face_within(object.faces()[j as int], n as nat));
                        return false;
                    }
                    j = j + 1;
                }
                if skinned {
                    return true;
                }
                let mut k: usize = 0;
                while k < self.instances.len()
                    invariant
                        k <= self.instances.len(),
                        n == object.coords().len(),
                        self.emits(),
                        !object.skinned(),
                        forall|i: int|
                            0 <= i < k ==> (#[trigger] self.instances@[i]).world_positions@.len()
                                == n,
                    decreases self.instances.len() - k,
                {
                    if self.instances[k].world_positions.len() != n {
                        return false;
                    }
                    k = k + 1;
                }
                true
            },
            _ => false,
        }
    }
}

} // verus!
