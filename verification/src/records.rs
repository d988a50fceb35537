//! The records of the GPU scene, laid out for the tracing kernel.
//!
//! Every record is a whole number of four-word rows (`vec4`s of the std430 layout).

use crate::float::F32;
use crate::scene::{Mat4, TextureHandle, MINUS_ONE_BITS, ONE_BITS};
use vstd::prelude::*;

verus! {

/// Light type tag of a point light.
pub const RT_LIGHT_POINT: u32 = 0;

/// Light type tag of a directional light.
pub const RT_LIGHT_DIRECTIONAL: u32 = 1;

/// Light type tag of a spot light.
pub const RT_LIGHT_SPOT: u32 = 2;

/// Texture layer of a map that a material does not have.
pub const NO_TEXTURE: i32 = -1;

/// The bit pattern of `0.5`.
pub const HALF_BITS: u32 = 0x3f00_0000;

/// The bit pattern of `1.5`.
pub const ONE_AND_A_HALF_BITS: u32 = 0x3fc0_0000;

/// A vertex: 32 bytes. The texture coordinate fills the fourth lanes of the
/// position and of the normal.
#[derive(Clone, Copy, Debug)]
pub struct RtVertex {
    /// Position, in the space of the mesh.
    pub position: [F32; 3],
    /// Texture coordinate U.
    pub u: F32,
    /// Shading normal.
    pub normal: [F32; 3],
    /// Texture coordinate V.
    pub v: F32,
}

/// A triangle as three vertex indices and a material index: 16 bytes.
#[derive(Clone, Copy, Debug, Default)]
pub struct RtTriangle {
    /// Index of the first vertex.
    pub v0: u32,
    /// Index of the second vertex.
    pub v1: u32,
    /// Index of the third vertex.
    pub v2: u32,
    /// Index into the material table.
    pub material_id: u32,
}

/// An emissive triangle in world space, for sampling area lights: 64 bytes.
#[derive(Clone, Copy, Debug, Default)]
pub struct RtEmitter {
    /// World-space position of the first vertex.
    pub p0: [F32; 3],
    pub _pad0: F32,
    /// World-space position of the second vertex.
    pub p1: [F32; 3],
    pub _pad1: F32,
    /// World-space position of the third vertex.
    pub p2: [F32; 3],
    pub _pad2: F32,
    /// Emitted radiance, RGB.
    pub emission: [F32; 3],
    pub _pad3: F32,
}

/// Material parameters: 128 bytes.
#[derive(Clone, Copy, Debug)]
pub struct RtMaterial {
    /// Base color, RGBA.
    pub base_color: [F32; 4],
    /// Emissive color, RGB (alpha unused).
    pub emissive: [F32; 4],
    /// Metallic factor.
    pub metallic: F32,
    /// Roughness factor.
    pub roughness: F32,
    /// Index of refraction.
    pub ior: F32,
    /// Transmission factor.
    pub transmission: F32,
    /// Specular tint, RGB.
    pub specular_tint: [F32; 3],
    /// Tag of the surface model.
    pub bsdf_type: u32,
    /// Subsurface factor.
    pub subsurface: F32,
    /// Subsurface scattering radius, in world units.
    pub subsurface_radius: F32,
    /// Dielectric specular reflectance.
    pub reflectance: F32,
    /// Light layers: a light affects the object only where the masks share a bit.
    pub light_layers: u32,
    /// Volume absorption color, RGB.
    pub attenuation_color: [F32; 3],
    /// Distance over which transmitted light is absorbed; `-1` disables absorption.
    pub attenuation_distance: F32,
    /// Clearcoat strength.
    pub clearcoat: F32,
    /// Clearcoat roughness.
    pub clearcoat_roughness: F32,
    /// `1` if the object occludes shadow rays, `0` if not.
    pub casts_shadows: u32,
    pub _pad0: F32,
    /// Texture layer of the albedo map, `-1` for none.
    pub albedo_tex: i32,
    /// Texture layer of the normal map, `-1` for none.
    pub normal_tex: i32,
    /// Texture layer of the metallic-roughness map, `-1` for none.
    pub mr_tex: i32,
    /// Texture layer of the emissive map, `-1` for none.
    pub emissive_tex: i32,
}

/// A light in world space: 80 bytes.
#[derive(Clone, Copy, Debug, Default)]
pub struct RtLight {
    /// Position (point and spot lights).
    pub position: [F32; 3],
    /// One of the `RT_LIGHT_*` tags.
    pub light_type: u32,
    /// Direction (directional and spot lights).
    pub direction: [F32; 3],
    /// Intensity multiplier.
    pub intensity: F32,
    /// Color, RGB.
    pub color: [F32; 3],
    /// Distance at which the light ends (point and spot lights).
    pub attenuation_radius: F32,
    /// Cosine of the inner cone angle (spot lights).
    pub inner_cone_cos: F32,
    /// Cosine of the outer cone angle (spot lights).
    pub outer_cone_cos: F32,
    /// Radius of the light's sphere; `0` for a point-like light.
    pub radius: F32,
    /// Light layers.
    pub layers: u32,
    /// `1` if the light casts shadows, `0` if it is never occluded.
    pub casts_shadows: u32,
    pub _pad0: F32,
    pub _pad1: F32,
    pub _pad2: F32,
}

/// A placement of a mesh in the world: 144 bytes.
#[derive(Clone, Copy, Debug)]
pub struct RtInstance {
    /// Brings a world-space ray into the space of the mesh.
    pub world_to_object: Mat4,
    /// Places the mesh in the world.
    pub object_to_world: Mat4,
    /// Index into the mesh ranges.
    pub mesh_id: u32,
    /// Index into the material table.
    pub material_id: u32,
    /// Base of the mesh's nodes in the merged BVH (compute backend).
    pub node_offset: u32,
    /// Base of the mesh's triangles in the reordered table (compute backend).
    pub tri_offset: u32,
}

/// Where a mesh's nodes and triangles lie in the concatenated buffers: 16 bytes.
#[derive(Clone, Copy, Debug, Default)]
pub struct RtMeshDesc {
    /// Base index of the mesh's nodes.
    pub node_offset: u32,
    /// Base index of the mesh's triangles.
    pub tri_offset: u32,
    pub _pad: [u32; 2],
}

/// The vertices and triangles of one mesh in the concatenated arrays.
#[derive(Clone, Copy, Debug, Default)]
pub struct RtMeshRange {
    /// First vertex.
    pub vert_start: u32,
    /// Number of vertices.
    pub vert_count: u32,
    /// First triangle.
    pub tri_start: u32,
    /// Number of triangles.
    pub tri_count: u32,
}

/// A scene ready for the GPU, in two levels: every mesh once, in its own space,
/// and the instances that place it.
#[derive(Debug, Default)]
pub struct RtScene {
    /// Vertices of every mesh, mesh after mesh.
    pub mesh_vertices: Vec<RtVertex>,
    /// Triangles of every mesh, mesh after mesh. The indices are into
    /// `mesh_vertices`; the material is that of the instance.
    pub mesh_triangles: Vec<RtTriangle>,
    /// The part of each mesh in the two arrays above.
    pub mesh_ranges: Vec<RtMeshRange>,
    /// The placements of the meshes.
    pub instances: Vec<RtInstance>,
    /// The materials, one per instance.
    pub materials: Vec<RtMaterial>,
    /// The lights.
    pub lights: Vec<RtLight>,
    /// Emissive triangles in world space.
    pub emitters: Vec<RtEmitter>,
    /// The textures, one per layer that the materials refer to.
    pub textures: Vec<TextureHandle>,
    /// Ambient intensity.
    pub ambient: F32,
    /// Ambient color.
    pub ambient_color: [F32; 3],
    /// Fog color and strength.
    pub fog_color: [F32; 4],
    /// Fog falloff encoding.
    pub fog_params: [F32; 4],
    /// Hash of everything except world transforms.
    pub geom_hash: u64,
    /// Hash of the world transforms.
    pub xform_hash: u64,
}

impl RtScene {
    /// Whether the scene has no triangles.
    pub fn is_empty(&self) -> (r: bool)
        ensures
            r == (self.mesh_triangles@.len() == 0),
    {
        self.mesh_triangles.len() == 0
    }
}

/// The number with the bit pattern `bits`.
pub open spec fn number(bits: u32) -> F32 {
    F32 { bits }
}

impl RtMaterial {
    /// A white, half-rough, opaque dielectric without textures.
    pub open spec fn plain() -> RtMaterial {
        let one = number(ONE_BITS);
        let zero = number(0);
        RtMaterial {
            base_color: [one, one, one, one],
            emissive: [zero, zero, zero, one],
            metallic: zero,
            roughness: number(HALF_BITS),
            ior: number(ONE_AND_A_HALF_BITS),
            transmission: zero,
            specular_tint: [one, one, one],
            bsdf_type: 0,
            subsurface: zero,
            subsurface_radius: zero,
            reflectance: number(HALF_BITS),
            light_layers: u32::MAX,
            attenuation_color: [one, one, one],
            attenuation_distance: number(MINUS_ONE_BITS),
            clearcoat: zero,
            clearcoat_roughness: zero,
            casts_shadows: 1,
            _pad0: zero,
            albedo_tex: NO_TEXTURE,
            normal_tex: NO_TEXTURE,
            mr_tex: NO_TEXTURE,
            emissive_tex: NO_TEXTURE,
        }
    }
}

impl Default for RtMaterial {
    fn default() -> (m: RtMaterial)
        ensures
            m == RtMaterial::plain(),
    {
        let one = F32::from_bits(ONE_BITS);
        let zero = F32::from_bits(0);
        RtMaterial {
            base_color: [one, one, one, one],
            emissive: [zero, zero, zero, one],
            metallic: zero,
            roughness: F32::from_bits(HALF_BITS),
            ior: F32::from_bits(ONE_AND_A_HALF_BITS),
            transmission: zero,
            specular_tint: [one, one, one],
            bsdf_type: 0,
            subsurface: zero,
            subsurface_radius: zero,
            reflectance: F32::from_bits(HALF_BITS),
            light_layers: u32::MAX,
            attenuation_color: [one, one, one],
            attenuation_distance: F32::from_bits(MINUS_ONE_BITS),
            clearcoat: zero,
            clearcoat_roughness: zero,
            casts_shadows: 1,
            _pad0: zero,
            albedo_tex: NO_TEXTURE,
            normal_tex: NO_TEXTURE,
            mr_tex: NO_TEXTURE,
            emissive_tex: NO_TEXTURE,
        }
    }
}

impl RtVertex {
    /// The vertex with every component zero.
    pub open spec fn zeroed() -> RtVertex {
        let zero = number(0);
        RtVertex { position: [zero, zero, zero], u: zero, normal: [zero, zero, zero], v: zero }
    }
}

impl Default for RtVertex {
    fn default() -> (v: RtVertex)
        ensures
            v == RtVertex::zeroed(),
    {
        let zero = F32::from_bits(0);
        RtVertex { position: [zero, zero, zero], u: zero, normal: [zero, zero, zero], v: zero }
    }
}

} // verus!
