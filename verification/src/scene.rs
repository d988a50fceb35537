//! The scene as the path tracer sees it: the visible nodes with their objects,
//! and the lights, all as plain values.

use crate::float::F32;
use vstd::prelude::*;

verus! {

/// A two-component vector.
#[derive(Clone, Copy, Debug, PartialEq, Eq, Structural)]
pub struct Vec2 {
    pub x: F32,
    pub y: F32,
}

/// A three-component vector.
#[derive(Clone, Copy, Debug, PartialEq, Eq, Structural)]
pub struct Vec3 {
    pub x: F32,
    pub y: F32,
    pub z: F32,
}

/// A rotation quaternion.
#[derive(Clone, Copy, Debug, PartialEq, Eq, Structural)]
pub struct Quat {
    pub x: F32,
    pub y: F32,
    pub z: F32,
    pub w: F32,
}

/// A rigid transform.
#[derive(Clone, Copy, Debug, PartialEq, Eq, Structural)]
pub struct Pose3 {
    pub translation: Vec3,
    pub rotation: Quat,
}

/// An RGBA color.
#[derive(Clone, Copy, Debug, PartialEq, Eq, Structural)]
pub struct Color {
    pub r: F32,
    pub g: F32,
    pub b: F32,
    pub a: F32,
}

/// A 4x4 matrix as four columns.
pub type Mat4 = [[F32; 4]; 4];

/// The bit pattern of `1`.
pub const ONE_BITS: u32 = 0x3f80_0000;

/// The bit pattern of `-1`.
pub const MINUS_ONE_BITS: u32 = 0xbf80_0000;

/// The number zero.
pub open spec fn zero() -> F32 {
    F32 { bits: 0 }
}

/// The number one.
pub open spec fn one() -> F32 {
    F32 { bits: ONE_BITS }
}

/// The zero vector.
pub open spec fn zero_vec3() -> Vec3 {
    Vec3 { x: zero(), y: zero(), z: zero() }
}

/// The unit vector along the Y axis.
pub open spec fn unit_y() -> Vec3 {
    Vec3 { x: zero(), y: one(), z: zero() }
}

/// The identity matrix.
pub open spec fn identity() -> Mat4 {
    [
        [one(), zero(), zero(), zero()],
        [zero(), one(), zero(), zero()],
        [zero(), zero(), one(), zero()],
        [zero(), zero(), zero(), one()],
    ]
}

/// Identifies a texture by the address of its shared allocation.
#[derive(Clone, Copy, Debug, PartialEq, Eq, Structural)]
pub struct TextureHandle {
    pub address: u64,
}

/// Identifies a mesh by the address of its shared allocation: objects whose meshes have
/// the same handle share one mesh.
#[derive(Clone, Copy, Debug, PartialEq, Eq, Structural)]
pub struct MeshHandle {
    pub address: u64,
}

/// The joint matrices that deform a skinned object this frame.
#[derive(Debug)]
pub struct Skin {
    pub palette: Vec<Mat4>,
}

/// Morph-target deltas of a mesh, target after target, `vertex_count` entries
/// each. `None` deltas are not resident in main memory.
#[derive(Debug)]
pub struct MorphTargets {
    pub vertex_count: usize,
    pub target_count: usize,
    pub positions: Option<Vec<Vec3>>,
    pub normals: Option<Vec<Vec3>>,
}

/// A mesh. An array that is `None` is not resident in main memory.
#[derive(Debug)]
pub struct GpuMesh3d {
    pub handle: MeshHandle,
    pub coords: Option<Vec<Vec3>>,
    pub faces: Option<Vec<[u32; 3]>>,
    pub normals: Option<Vec<Vec3>>,
    pub uvs: Option<Vec<Vec2>>,
    /// Whether the mesh carries per-vertex joints and weights.
    pub has_skin_vertices: bool,
    pub skin_joints: Option<Vec<[u32; 4]>>,
    pub skin_weights: Option<Vec<[F32; 4]>>,
    pub morph: Option<MorphTargets>,
}

/// The copies of an object. An object that is not instanced has one.
#[derive(Debug)]
pub struct InstancesBuffer3d {
    /// Number of copies.
    pub count: usize,
    /// Per-copy world-space offset.
    pub positions: Option<Vec<Vec3>>,
    /// Per-copy deformation, three matrix columns each.
    pub deformations: Option<Vec<Vec3>>,
    /// Per-copy color, RGBA.
    pub colors: Option<Vec<[F32; 4]>>,
}

/// Appearance and visibility of an object.
#[derive(Debug)]
pub struct ObjectData3d {
    /// Whether the surface of the object is drawn at all.
    pub surface_rendering_active: bool,
    /// Layers that the object belongs to.
    pub render_layers: u32,
    pub color: Color,
    pub emissive: Color,
    pub metallic: F32,
    pub roughness: F32,
    pub ior: F32,
    pub transmission: F32,
    pub specular_tint: Color,
    /// Tag of the surface model.
    pub bsdf_tag: u32,
    pub subsurface: F32,
    pub subsurface_radius: F32,
    pub reflectance: F32,
    pub light_layers: u32,
    pub casts_shadows: bool,
    pub attenuation_color: Color,
    pub attenuation_distance: F32,
    pub clearcoat: F32,
    pub clearcoat_roughness: F32,
    pub texture: TextureHandle,
    pub normal_map: Option<TextureHandle>,
    pub metallic_roughness_map: Option<TextureHandle>,
    pub emissive_map: Option<TextureHandle>,
    /// Whether the object is skinned.
    pub has_skin: bool,
    pub skin: Option<Skin>,
    pub morph_weights: Vec<F32>,
}

/// A drawable object.
#[derive(Debug)]
pub struct Object3d {
    pub data: ObjectData3d,
    pub mesh: GpuMesh3d,
    pub instances: InstancesBuffer3d,
}

/// A visible node of the scene graph, with its world transform.
#[derive(Debug)]
pub struct SceneNode3d {
    pub pose: Pose3,
    pub scale: Vec3,
    pub object: Option<Object3d>,
}

/// What kind of light a light is.
#[derive(Clone, Copy, Debug, PartialEq, Eq, Structural)]
pub enum LightType {
    /// Shines in every direction from a point.
    Point { attenuation_radius: F32 },
    /// Shines along one direction from infinitely far away.
    Directional,
    /// Shines from a point into a cone, given by the cosines of its angles.
    Spot { inner_cone_cos: F32, outer_cone_cos: F32, attenuation_radius: F32 },
}

/// A light in world space.
#[derive(Clone, Copy, Debug, PartialEq, Eq, Structural)]
pub struct CollectedLight {
    pub light_type: LightType,
    pub world_position: Vec3,
    pub world_direction: Vec3,
    pub color: Vec3,
    pub intensity: F32,
    pub radius: F32,
    pub layers: u32,
    pub casts_shadows: bool,
}

/// Distance fog: its color and the encoding of its falloff.
#[derive(Clone, Copy, Debug)]
pub struct Fog {
    pub color: Color,
    pub params: [F32; 4],
}

/// The lights of a frame and the scene-wide lighting state.
#[derive(Debug)]
pub struct LightCollection {
    pub lights: Vec<CollectedLight>,
    pub ambient: F32,
    pub ambient_color: Color,
    pub fog: Fog,
}

impl Object3d {
    /// The mesh has vertices and faces in main memory.
    pub open spec fn has_geometry(self) -> bool {
        &&& self.mesh.coords matches Some(coords) && coords@.len() > 0
        &&& self.mesh.faces matches Some(faces) && faces@.len() > 0
    }

    /// The vertex positions of an object with geometry.
    pub open spec fn coords(self) -> Seq<Vec3> {
        self.mesh.coords->0@
    }

    /// The faces of an object with geometry.
    pub open spec fn faces(self) -> Seq<[u32; 3]> {
        self.mesh.faces->0@
    }

    /// The vertices are deformed by a joint palette: the object has a non-empty
    /// palette, and joints and weights are in main memory.
    pub open spec fn skinned(self) -> bool {
        &&& self.data.has_skin
        &&& self.mesh.has_skin_vertices
        &&& self.data.skin matches Some(skin) && skin.palette@.len() > 0
        &&& self.mesh.skin_joints is Some
        &&& self.mesh.skin_weights is Some
    }

    /// How many instances place the object. A skinned object is baked in world
    /// space and placed once.
    pub open spec fn placements(self) -> nat {
        if self.skinned() {
            1
        } else {
            self.instances.count as nat
        }
    }
}

impl SceneNode3d {
    /// The node takes part in path tracing under the camera's layer mask: it has
    /// an object whose surface is drawn, that shares a layer with the mask, has
    /// geometry, and has at least one instance.
    pub open spec fn traced(self, render_layers: u32) -> bool {
        &&& self.object matches Some(object)
        &&& object.data.surface_rendering_active
        &&& object.data.render_layers & render_layers != 0
        &&& object.has_geometry()
        &&& object.instances.count != 0
    }
}

impl Object3d {
    /// Whether the mesh has vertices and faces in main memory.
    pub fn has_mesh(&self) -> (r: bool)
        ensures
            r == self.has_geometry(),
    {
        match (&self.mesh.coords, &self.mesh.faces) {
            (Some(coords), Some(faces)) => coords.len() > 0 && faces.len() > 0,
            _ => false,
        }
    }

    /// Whether the vertices are deformed by a joint palette.
    pub fn is_skinned(&self) -> (r: bool)
        ensures
            r == self.skinned(),
    {
        if !self.data.has_skin || !self.mesh.has_skin_vertices {
            return false;
        }
        let palette_ready = match &self.data.skin {
            Some(skin) => skin.palette.len() > 0,
            None => false,
        };
        palette_ready && self.mesh.skin_joints.is_some() && self.mesh.skin_weights.is_some()
    }

    /// How many instances place the object.
    pub fn placement_count(&self) -> (n: usize)
        ensures
            n == self.placements(),
    {
        if self.is_skinned() {
            1
        } else {
            self.instances.count
        }
    }
}

impl SceneNode3d {
    /// Whether the node takes part in path tracing under the camera's layer mask.
    pub fn is_traced(&self, render_layers: u32) -> (r: bool)
        ensures
            r == self.traced(render_layers),
    {
        match &self.object {
            Some(object) => object.data.surface_rendering_active && object.data.render_layers
                & render_layers != 0 && object.has_mesh() && object.instances.count != 0,
            None => false,
        }
    }
}

} // verus!
