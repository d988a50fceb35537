//! Extraction of the scene into flat, GPU-ready arrays.

use crate::bake::{face_within, identity_matrix, BakedInstance, BakedObject, MorphedVertices};
use crate::content::{
    flag_word, geometry_hash, hash_lighting, hash_node, nodes_geometry_words,
    nodes_transform_words, transform_hash,
};
use crate::float::F32;
use crate::fnv::Fnv;
use crate::records::{
    number, RtEmitter, RtInstance, RtLight, RtMaterial, RtMeshRange, RtScene, RtTriangle, RtVertex,
    NO_TEXTURE, RT_LIGHT_DIRECTIONAL, RT_LIGHT_POINT, RT_LIGHT_SPOT,
};
use crate::scene::{
    identity, one, unit_y, zero, CollectedLight, LightCollection, LightType, Mat4, Object3d,
    ObjectData3d, SceneNode3d, TextureHandle, Vec2, Vec3, MINUS_ONE_BITS, ONE_BITS,
};
use std::collections::HashMap;
use vstd::prelude::*;

verus! {

/// The arrays that the nodes of a scene fill, as sequences.
#[verifier::ext_equal]
pub struct SceneModel {
    pub vertices: Seq<RtVertex>,
    pub triangles: Seq<RtTriangle>,
    pub ranges: Seq<RtMeshRange>,
    pub instances: Seq<RtInstance>,
    pub materials: Seq<RtMaterial>,
    pub emitters: Seq<RtEmitter>,
    pub textures: Seq<TextureHandle>,
}

/// The arrays of a scene without nodes.
pub open spec fn empty_model() -> SceneModel {
    SceneModel {
        vertices: Seq::empty(),
        triangles: Seq::empty(),
        ranges: Seq::empty(),
        instances: Seq::empty(),
        materials: Seq::empty(),
        emitters: Seq::empty(),
        textures: Seq::empty(),
    }
}

impl RtScene {
    /// The arrays that the nodes of the scene filled.
    pub open spec fn model(&self) -> SceneModel {
        SceneModel {
            vertices: self.mesh_vertices@,
            triangles: self.mesh_triangles@,
            ranges: self.mesh_ranges@,
            instances: self.instances@,
            materials: self.materials@,
            emitters: self.emitters@,
            textures: self.textures@,
        }
    }
}

/// Position of vertex `i` in the space of the mesh: the morphed position, or the
/// position itself where the object is not morphed.
pub open spec fn local_position(object: Object3d, baked: BakedObject, i: int) -> Vec3 {
    match baked.morphed {
        Some(m) => m.positions@[i],
        None => object.coords()[i],
    }
}

/// Normal of vertex `i` in the space of the mesh; the Y axis where none is given.
pub open spec fn local_normal(object: Object3d, baked: BakedObject, i: int) -> Vec3 {
    match baked.morphed {
        Some(MorphedVertices { normals: Some(normals), .. }) => normals@[i],
        _ => match object.mesh.normals {
            Some(normals) if i < normals@.len() => normals@[i],
            _ => unit_y(),
        },
    }
}

/// Texture coordinate of vertex `i`; zero where none is given.
pub open spec fn texture_coordinate(object: Object3d, i: int) -> Vec2 {
    match object.mesh.uvs {
        Some(uvs) if i < uvs@.len() => uvs@[i],
        _ => Vec2 { x: zero(), y: zero() },
    }
}

/// Vertex `i` of the object's mesh: skinned into world space where the object is
/// skinned, otherwise in the space of the mesh.
pub open spec fn mesh_vertex(object: Object3d, baked: BakedObject, i: int) -> RtVertex {
    let position = match baked.skinned {
        Some(vertices) => vertices@[i].position,
        None => local_position(object, baked, i),
    };
    let normal = match baked.skinned {
        Some(vertices) => vertices@[i].normal,
        None => local_normal(object, baked, i),
    };
    let uv = texture_coordinate(object, i);
    RtVertex {
        position: [position.x, position.y, position.z],
        u: uv.x,
        normal: [normal.x, normal.y, normal.z],
        v: uv.y,
    }
}

/// A face whose vertices start at `vert_start` in the vertex array.
pub open spec fn mesh_triangle(face: [u32; 3], vert_start: u32) -> RtTriangle {
    RtTriangle {
        v0: (vert_start + face[0]) as u32,
        v1: (vert_start + face[1]) as u32,
        v2: (vert_start + face[2]) as u32,
        material_id: 0,
    }
}

/// The textures of an object that has `map`.
pub open spec fn optional_texture(map: Option<TextureHandle>) -> Seq<TextureHandle> {
    match map {
        Some(texture) => seq![texture],
        None => Seq::empty(),
    }
}

/// The textures that an object adds: its own, then its normal, its
/// metallic-roughness and its emissive map, as far as it has them.
pub open spec fn object_textures(data: ObjectData3d) -> Seq<TextureHandle> {
    seq![data.texture] + optional_texture(data.normal_map) + optional_texture(
        data.metallic_roughness_map,
    ) + optional_texture(data.emissive_map)
}

/// The layer of a map that would be added as texture `index`.
pub open spec fn map_layer(map: Option<TextureHandle>, index: nat) -> i32 {
    match map {
        Some(_) => index as i32,
        None => NO_TEXTURE,
    }
}

/// Where volume absorption is off, the distance is encoded as `-1`: it is on for a
/// finite positive distance only.
pub open spec fn absorption_distance(distance: F32) -> F32 {
    if distance.finite() && zero().less(distance) {
        distance
    } else {
        number(MINUS_ONE_BITS)
    }
}

/// The material of an object's instance of color `base_color`, where the object's
/// textures start at layer `first_layer`.
pub open spec fn object_material(
    data: ObjectData3d,
    first_layer: nat,
    base_color: [F32; 4],
) -> RtMaterial {
    let n1 = first_layer + 1;
    let n2 = n1 + optional_texture(data.normal_map).len();
    let n3 = n2 + optional_texture(data.metallic_roughness_map).len();
    RtMaterial {
        base_color,
        emissive: [data.emissive.r, data.emissive.g, data.emissive.b, one()],
        metallic: data.metallic,
        roughness: data.roughness,
        ior: data.ior,
        transmission: data.transmission,
        specular_tint: [data.specular_tint.r, data.specular_tint.g, data.specular_tint.b],
        bsdf_type: data.bsdf_tag,
        subsurface: data.subsurface,
        subsurface_radius: data.subsurface_radius,
        reflectance: data.reflectance,
        light_layers: data.light_layers,
        attenuation_color: [
            data.attenuation_color.r,
            data.attenuation_color.g,
            data.attenuation_color.b,
        ],
        attenuation_distance: absorption_distance(data.attenuation_distance),
        clearcoat: data.clearcoat,
        clearcoat_roughness: data.clearcoat_roughness,
        casts_shadows: flag_word(data.casts_shadows),
        _pad0: zero(),
        albedo_tex: first_layer as i32,
        normal_tex: map_layer(data.normal_map, n1),
        mr_tex: map_layer(data.metallic_roughness_map, n2),
        emissive_tex: map_layer(data.emissive_map, n3),
    }
}

/// Placement `k` of an object. A skinned object lies in world space already: both its
/// placement and the inverse are the identity.
pub open spec fn object_instance(
    object: Object3d,
    baked: BakedObject,
    k: int,
    mesh_id: u32,
    material_id: u32,
) -> RtInstance {
    RtInstance {
        world_to_object: if object.skinned() {
            identity()
        } else {
            baked.instances@[k].world_to_object
        },
        object_to_world: if object.skinned() {
            identity()
        } else {
            baked.instances@[k].object_to_world
        },
        mesh_id,
        material_id,
        node_offset: 0,
        tri_offset: 0,
    }
}

/// Vertex `i` of placement `k` in world space.
pub open spec fn world_position(baked: BakedObject, k: int, i: int) -> Vec3 {
    match baked.skinned {
        Some(vertices) => vertices@[i].position,
        None => baked.instances@[k].world_positions@[i],
    }
}

/// The components of a vector.
pub open spec fn components(v: Vec3) -> [F32; 3] {
    [v.x, v.y, v.z]
}

/// The emitter of face `j` of placement `k`.
pub open spec fn face_emitter(object: Object3d, baked: BakedObject, k: int, j: int) -> RtEmitter {
    let face = object.faces()[j];
    RtEmitter {
        p0: components(world_position(baked, k, face[0] as int)),
        _pad0: zero(),
        p1: components(world_position(baked, k, face[1] as int)),
        _pad1: zero(),
        p2: components(world_position(baked, k, face[2] as int)),
        _pad2: zero(),
        emission: [object.data.emissive.r, object.data.emissive.g, object.data.emissive.b],
        _pad3: zero(),
    }
}

/// The emitters of the first `n` placements, placement after placement.
pub open spec fn object_emitters(object: Object3d, baked: BakedObject, n: nat) -> Seq<RtEmitter>
    decreases n,
{
    if n == 0 {
        Seq::empty()
    } else {
        object_emitters(object, baked, (n - 1) as nat) + Seq::new(
            object.faces().len(),
            |j: int| face_emitter(object, baked, n - 1, j),
        )
    }
}

/// The meshes that are stored: which of them can be shared, by the address of their
/// handle, how many there are, and how many vertices they have.
#[verifier::ext_equal]
pub struct MeshTable {
    pub ids: Map<u64, u32>,
    pub meshes: nat,
    pub vertices: nat,
}

impl MeshTable {
    /// The stored mesh that an object shares: that of an earlier object with the same
    /// mesh, where neither of the two is skinned or morphed.
    pub open spec fn shared(self, object: Object3d) -> Option<u32> {
        if object.undeformed() && self.ids.contains_key(object.mesh.handle.address) {
            Some(self.ids[object.mesh.handle.address])
        } else {
            None
        }
    }

    /// The table after a traced object was added.
    pub open spec fn with_object(self, object: Object3d) -> MeshTable {
        if self.shared(object) is Some {
            self
        } else {
            MeshTable {
                ids: if object.undeformed() {
                    self.ids.insert(object.mesh.handle.address, self.meshes as u32)
                } else {
                    self.ids
                },
                meshes: self.meshes + 1,
                vertices: self.vertices + object.coords().len(),
            }
        }
    }
}

/// The meshes that the nodes store.
pub open spec fn mesh_table(nodes: Seq<SceneNode3d>, render_layers: u32) -> MeshTable
    decreases nodes.len(),
{
    if nodes.len() == 0 {
        MeshTable { ids: Map::empty(), meshes: 0, vertices: 0 }
    } else {
        let before = mesh_table(nodes.drop_last(), render_layers);
        if nodes.last().traced(render_layers) {
            before.with_object(nodes.last().object->0)
        } else {
            before
        }
    }
}

/// The arrays after the mesh of an object was stored.
pub open spec fn with_mesh(before: SceneModel, object: Object3d, baked: BakedObject) -> SceneModel {
    let vert_start = before.vertices.len() as u32;
    SceneModel {
        vertices: before.vertices + Seq::new(
            object.coords().len(),
            |i: int| mesh_vertex(object, baked, i),
        ),
        triangles: before.triangles + Seq::new(
            object.faces().len(),
            |j: int| mesh_triangle(object.faces()[j], vert_start),
        ),
        ranges: before.ranges.push(
            RtMeshRange {
                vert_start,
                vert_count: object.coords().len() as u32,
                tri_start: before.triangles.len() as u32,
                tri_count: object.faces().len() as u32,
            },
        ),
        ..before
    }
}

/// The arrays after the placements of an object were added, with mesh `mesh_id`.
pub open spec fn with_placements(
    before: SceneModel,
    object: Object3d,
    baked: BakedObject,
    mesh_id: u32,
) -> SceneModel {
    SceneModel {
        instances: before.instances + Seq::new(
            object.placements(),
            |k: int|
                object_instance(
                    object,
                    baked,
                    k,
                    mesh_id,
                    (before.materials.len() + k) as u32,
                ),
        ),
        materials: before.materials + Seq::new(
            object.placements(),
            |k: int|
                object_material(
                    object.data,
                    before.textures.len(),
                    baked.instances@[k].base_color,
                ),
        ),
        emitters: before.emitters + if baked.emits() {
            object_emitters(object, baked, object.placements())
        } else {
            Seq::empty()
        },
        textures: before.textures + object_textures(object.data),
        ..before
    }
}

/// The arrays after a traced object was added to `before`. Its mesh is stored unless it
/// shares the stored mesh `shared`.
pub open spec fn with_object(
    before: SceneModel,
    object: Object3d,
    baked: BakedObject,
    shared: Option<u32>,
) -> SceneModel {
    match shared {
        Some(mesh_id) => with_placements(before, object, baked, mesh_id),
        None => with_placements(
            with_mesh(before, object, baked),
            object,
            baked,
            before.ranges.len() as u32,
        ),
    }
}

/// The arrays that the nodes fill, where node `i` has the computed numbers
/// `baked[i]`.
pub open spec fn gathered(
    nodes: Seq<SceneNode3d>,
    baked: Seq<BakedObject>,
    render_layers: u32,
) -> SceneModel
    decreases nodes.len(),
{
    if nodes.len() == 0 {
        empty_model()
    } else {
        let before = gathered(nodes.drop_last(), baked.drop_last(), render_layers);
        if nodes.last().traced(render_layers) {
            let object = nodes.last().object->0;
            let table = mesh_table(nodes.drop_last(), render_layers);
            with_object(before, object, baked.last(), table.shared(object))
        } else {
            before
        }
    }
}

/// A face whose vertices start at `vert_start` has indices of 32 bits.
pub open spec fn face_fits(face: [u32; 3], vert_start: u32) -> bool {
    &&& vert_start + face[0] <= u32::MAX
    &&& vert_start + face[1] <= u32::MAX
    &&& vert_start + face[2] <= u32::MAX
}

/// The faces of node `i` have vertex indices of 32 bits.
pub open spec fn indices_fit(nodes: Seq<SceneNode3d>, render_layers: u32, i: int) -> bool {
    let vert_start = mesh_table(nodes.take(i), render_layers).vertices as u32;
    let faces = nodes[i].object->0.faces();
    forall|j: int| 0 <= j < faces.len() ==> face_fits(#[trigger] faces[j], vert_start)
}

/// The nodes can be gathered: every traced node has the computed numbers that its
/// object calls for, and vertex indices of 32 bits where its mesh is stored.
pub open spec fn gatherable(
    nodes: Seq<SceneNode3d>,
    baked: Seq<BakedObject>,
    render_layers: u32,
) -> bool {
    &&& nodes.len() == baked.len()
    &&& forall|i: int|
        0 <= i < nodes.len() && (#[trigger] nodes[i]).traced(render_layers) ==> {
            &&& baked[i].fits(nodes[i].object->0)
            &&& mesh_table(nodes.take(i), render_layers).shared(nodes[i].object->0) is None
                ==> indices_fit(nodes, render_layers, i)
        }
}

/// A light as the kernel reads it.
pub open spec fn rt_light(light: CollectedLight) -> RtLight {
    let (light_type, attenuation_radius, inner_cone_cos, outer_cone_cos) = match light.light_type {
        LightType::Point { attenuation_radius } => (
            RT_LIGHT_POINT,
            attenuation_radius,
            one(),
            zero(),
        ),
        LightType::Directional => (RT_LIGHT_DIRECTIONAL, zero(), one(), zero()),
        LightType::Spot { inner_cone_cos, outer_cone_cos, attenuation_radius } => (
            RT_LIGHT_SPOT,
            attenuation_radius,
            inner_cone_cos,
            outer_cone_cos,
        ),
    };
    RtLight {
        position: components(light.world_position),
        light_type,
        direction: components(light.world_direction),
        intensity: light.intensity,
        color: components(light.color),
        attenuation_radius,
        inner_cone_cos,
        outer_cone_cos,
        radius: light.radius,
        layers: light.layers,
        casts_shadows: flag_word(light.casts_shadows),
        _pad0: zero(),
        _pad1: zero(),
        _pad2: zero(),
    }
}

/// The placements of the nodes, in order: the identity for a skinned object, the
/// given matrices `placed[i]` for another.
pub open spec fn gathered_transforms(
    nodes: Seq<SceneNode3d>,
    placed: Seq<Vec<Mat4>>,
    render_layers: u32,
) -> Seq<Mat4>
    decreases nodes.len(),
{
    if nodes.len() == 0 {
        Seq::empty()
    } else {
        let before = gathered_transforms(nodes.drop_last(), placed.drop_last(), render_layers);
        if nodes.last().traced(render_layers) {
            if nodes.last().object->0.skinned() {
                before.push(identity())
            } else {
                before + placed.last()@
            }
        } else {
            before
        }
    }
}

struct SceneArrays {
    vertices: Vec<RtVertex>,
    triangles: Vec<RtTriangle>,
    ranges: Vec<RtMeshRange>,
    instances: Vec<RtInstance>,
    materials: Vec<RtMaterial>,
    emitters: Vec<RtEmitter>,
    textures: Vec<TextureHandle>,
}

impl View for SceneArrays {
    type V = SceneModel;

    closed spec fn view(&self) -> SceneModel {
        SceneModel {
            vertices: self.vertices@,
            triangles: self.triangles@,
            ranges: self.ranges@,
            instances: self.instances@,
            materials: self.materials@,
            emitters: self.emitters@,
            textures: self.textures@,
        }
    }
}

/// Converts a light to the form that the kernel reads.
pub fn collected_to_rt(light: &CollectedLight) -> (r: RtLight)
    ensures
        r == rt_light(*light),
{
    let zero_number = F32::from_bits(0);
    let one_number = F32::from_bits(ONE_BITS);
    let (light_type, attenuation_radius, inner_cone_cos, outer_cone_cos): (u32, F32, F32, F32) =
        match light.light_type {
        LightType::Point { attenuation_radius } => (
            RT_LIGHT_POINT,
            attenuation_radius,
            one_number,
            zero_number,
        ),
        LightType::Directional => (RT_LIGHT_DIRECTIONAL, zero_number, one_number, zero_number),
        LightType::Spot { inner_cone_cos, outer_cone_cos, attenuation_radius } => (
            RT_LIGHT_SPOT,
            attenuation_radius,
            inner_cone_cos,
            outer_cone_cos,
        ),
    };
    RtLight {
        position: vec3_array(light.world_position),
        light_type,
        direction: vec3_array(light.world_direction),
        intensity: light.intensity,
        color: vec3_array(light.color),
        attenuation_radius,
        inner_cone_cos,
        outer_cone_cos,
        radius: light.radius,
        layers: light.layers,
        casts_shadows: if light.casts_shadows {
            1
        } else {
            0
        },
        _pad0: zero_number,
        _pad1: zero_number,
        _pad2: zero_number,
    }
}

fn vec3_array(v: Vec3) -> (r: [F32; 3])
    ensures
        r == components(v),
{
    [v.x, v.y, v.z]
}

fn vertex_of(object: &Object3d, baked: &BakedObject, i: usize) -> (v: RtVertex)
    requires
        object.has_geometry(),
        baked.fits(*object),
        i < object.coords().len(),
    ensures
        v == mesh_vertex(*object, *baked, i as int),
{
    let zero_number = F32::from_bits(0);
    let y_axis = Vec3 { x: zero_number, y: F32::from_bits(ONE_BITS), z: zero_number };
    let unmorphed_normal = match &object.mesh.normals {
        Some(normals) if i < normals.len() => normals[i],
        _ => y_axis,
    };
    let (local, local_n): (Vec3, Vec3) = match &baked.morphed {
        Some(m) => (
            m.positions[i],
            match &m.normals {
                Some(normals) => normals[i],
                None => unmorphed_normal,
            },
        ),
        None => (
            match &object.mesh.coords {
                Some(coords) => coords[i],
                None => y_axis,
            },
            unmorphed_normal,
        ),
    };
    let (position, normal): (Vec3, Vec3) = match &baked.skinned {
        Some(vertices) => (vertices[i].position, vertices[i].normal),
        None => (local, local_n),
    };
    let uv = match &object.mesh.uvs {
        Some(uvs) if i < uvs.len() => uvs[i],
        _ => Vec2 { x: zero_number, y: zero_number },
    };
    RtVertex {
        position: [position.x, position.y, position.z],
        u: uv.x,
        normal: [normal.x, normal.y, normal.z],
        v: uv.y,
    }
}

fn push_vertices(out: &mut Vec<RtVertex>, object: &Object3d, baked: &BakedObject)
    requires
        object.has_geometry(),
        baked.fits(*object),
    ensures
        final(out)@ == old(out)@ + Seq::new(
            object.coords().len(),
            |i: int| mesh_vertex(*object, *baked, i),
        ),
{
    let n: usize = match &object.mesh.coords {
        Some(coords) => coords.len(),
        None => 0,
    };
    let mut i: usize = 0;
    assert(out@ =~= old(out)@ + Seq::new(0, |i: int| mesh_vertex(*object, *baked, i)));
    while i < n
        invariant
            i <= n,
            n == object.coords().len(),
            object.has_geometry(),
            baked.fits(*object),
            out@ == old(out)@ + Seq::new(i as nat, |i: int| mesh_vertex(*object, *baked, i)),
        decreases n - i,
    {
        let v = vertex_of(object, baked, i);
        out.push(v);
        assert(out@ =~= old(out)@ + Seq::new(
            (i + 1) as nat,
            |i: int| mesh_vertex(*object, *baked, i),
        ));
        i = i + 1;
    }
}

fn push_triangles(out: &mut Vec<RtTriangle>, faces: &Vec<[u32; 3]>, vert_start: u32)
    requires
        forall|j: int| 0 <= j < faces@.len() ==> face_fits(#[trigger] faces@[j], vert_start),
    ensures
        final(out)@ == old(out)@ + Seq::new(
            faces@.len(),
            |j: int| mesh_triangle(faces@[j], vert_start),
        ),
{
    let mut j: usize = 0;
    assert(out@ =~= old(out)@ + Seq::new(0, |j: int| mesh_triangle(faces@[j], vert_start)));
    while j < faces.len()
        invariant
            j <= faces.len(),
            forall|j: int| 0 <= j < faces@.len() ==> face_fits(#[trigger] faces@[j], vert_start),
            out@ == old(out)@ + Seq::new(j as nat, |j: int| mesh_triangle(faces@[j], vert_start)),
        decreases faces.len() - j,
    {
        let face: &[u32; 3] = &faces[j];
        assert(face_fits(faces@[j as int], vert_start));
        let triangle = RtTriangle {
            v0: vert_start + face[0],
            v1: vert_start + face[1],
            v2: vert_start + face[2],
            material_id: 0,
        };
        out.push(triangle);
        assert(out@ =~= old(out)@ + Seq::new(
            (j + 1) as nat,
            |j: int| mesh_triangle(faces@[j], vert_start),
        ));
        j = j + 1;
    }
}

/// Adds a texture, if there is one, and returns its layer.
fn push_tex(textures: &mut Vec<TextureHandle>, map: Option<TextureHandle>) -> (layer: i32)
    ensures
        final(textures)@ == old(textures)@ + optional_texture(map),
        layer == map_layer(map, old(textures)@.len()),
{
    match map {
        Some(texture) => {
            let layer: i32 = textures.len() as i32;
            textures.push(texture);
            assert(textures@ =~= old(textures)@ + optional_texture(map));
            layer
        },
        None => {
            assert(textures@ =~= old(textures)@ + optional_texture(map));
            NO_TEXTURE
        },
    }
}

/// Adds the textures of an object and returns its material, which still has the
/// color of the object itself.
fn push_material_textures(textures: &mut Vec<TextureHandle>, data: &ObjectData3d) -> (m: RtMaterial)
    ensures
        final(textures)@ == old(textures)@ + object_textures(*data),
        m == object_material(
            *data,
            old(textures)@.len(),
            [data.color.r, data.color.g, data.color.b, data.color.a],
        ),
{
    let albedo_tex: i32 = push_tex(textures, Some(data.texture));
    let normal_tex: i32 = push_tex(textures, data.normal_map);
    let mr_tex: i32 = push_tex(textures, data.metallic_roughness_map);
    let emissive_tex: i32 = push_tex(textures, data.emissive_map);
    assert(textures@ =~= old(textures)@ + object_textures(*data));
    let zero_number = F32::from_bits(0);
    let one_number = F32::from_bits(ONE_BITS);
    let distance = data.attenuation_distance;
    RtMaterial {
        base_color: [data.color.r, data.color.g, data.color.b, data.color.a],
        emissive: [data.emissive.r, data.emissive.g, data.emissive.b, one_number],
        metallic: data.metallic,
        roughness: data.roughness,
        ior: data.ior,
        transmission: data.transmission,
        specular_tint: [data.specular_tint.r, data.specular_tint.g, data.specular_tint.b],
        bsdf_type: data.bsdf_tag,
        subsurface: data.subsurface,
        subsurface_radius: data.subsurface_radius,
        reflectance: data.reflectance,
        light_layers: data.light_layers,
        attenuation_color: [
            data.attenuation_color.r,
            data.attenuation_color.g,
            data.attenuation_color.b,
        ],
        attenuation_distance: if distance.is_finite() && zero_number.lt(distance) {
            distance
        } else {
            F32::from_bits(MINUS_ONE_BITS)
        },
        clearcoat: data.clearcoat,
        clearcoat_roughness: data.clearcoat_roughness,
        casts_shadows: if data.casts_shadows {
            1
        } else {
            0
        },
        _pad0: zero_number,
        albedo_tex,
        normal_tex,
        mr_tex,
        emissive_tex,
    }
}

fn emitter_vertex(baked: &BakedObject, instance: &BakedInstance, i: u32) -> (p: [F32; 3])
    requires
        baked.skinned matches Some(vertices) ==> i < vertices@.len(),
        baked.skinned is None ==> i < instance.world_positions@.len(),
    ensures
        p == components(
            match baked.skinned {
                Some(vertices) => vertices@[i as int].position,
                None => instance.world_positions@[i as int],
            },
        ),
{
    match &baked.skinned {
        Some(vertices) => vec3_array(vertices[i as usize].position),
        None => vec3_array(instance.world_positions[i as usize]),
    }
}

/// Adds the emitters of placement `k`.
fn push_emitters(
    out: &mut Vec<RtEmitter>,
    object: &Object3d,
    baked: &BakedObject,
    faces: &Vec<[u32; 3]>,
    k: usize,
)
    requires
        object.has_geometry(),
        faces@ == object.faces(),
        baked.fits(*object),
        baked.emits(),
        k < object.placements(),
    ensures
        final(out)@ == old(out)@ + Seq::new(
            object.faces().len(),
            |j: int| face_emitter(*object, *baked, k as int, j),
        ),
{
    let zero_number = F32::from_bits(0);
    let instance = &baked.instances[k];
    let emissive = object.data.emissive;
    let mut j: usize = 0;
    assert(out@ =~= old(out)@ + Seq::new(
        0,
        |j: int| face_emitter(*object, *baked, k as int, j),
    ));
    while j < faces.len()
        invariant
            j <= faces.len(),
            zero_number == zero(),
            emissive == object.data.emissive,
            faces@ == object.faces(),
            baked.fits(*object),
            baked.emits(),
            k < object.placements(),
            instance == baked.instances@[k as int],
            out@ == old(out)@ + Seq::new(
                j as nat,
                |j: int| face_emitter(*object, *baked, k as int, j),
            ),
        decreases faces.len() - j,
    {
        let face: &[u32; 3] = &faces[j];
        assert(face_within(object.faces()[j as int], object.coords().len()));
        assert(!object.skinned() ==> baked.instances@[k as int].world_positions@.len()
            == object.coords().len());
        let emitter = RtEmitter {
            p0: emitter_vertex(baked, instance, face[0]),
            _pad0: zero_number,
            p1: emitter_vertex(baked, instance, face[1]),
            _pad1: zero_number,
            p2: emitter_vertex(baked, instance, face[2]),
            _pad2: zero_number,
            emission: [emissive.r, emissive.g, emissive.b],
            _pad3: zero_number,
        };
        assert(emitter == face_emitter(*object, *baked, k as int, j as int));
        out.push(emitter);
        assert(out@ =~= old(out)@ + Seq::new(
            (j + 1) as nat,
            |j: int| face_emitter(*object, *baked, k as int, j),
        ));
        j = j + 1;
    }
}

impl SceneArrays {
    fn new() -> (arrays: SceneArrays)
        ensures
            arrays@ == empty_model(),
    {
        SceneArrays {
            vertices: Vec::new(),
            triangles: Vec::new(),
            ranges: Vec::new(),
            instances: Vec::new(),
            materials: Vec::new(),
            emitters: Vec::new(),
            textures: Vec::new(),
        }
    }

    /// Stores the mesh of a traced object.
    fn add_mesh(&mut self, object: &Object3d, baked: &BakedObject)
        requires
            object.has_geometry(),
            baked.fits(*object),
            forall|j: int|
                0 <= j < object.faces().len() ==> face_fits(
                    #[trigger] object.faces()[j],
                    old(self)@.vertices.len() as u32,
                ),
        ensures
            final(self)@ == with_mesh(old(self)@, *object, *baked),
    {
        match (&object.mesh.coords, &object.mesh.faces) {
            (Some(coords), Some(faces)) => {
                let ghost before = self@;
                assert(faces@ == object.faces());
                assert(forall|j: int|
                    0 <= j < faces@.len() ==> face_fits(
                        #[trigger] faces@[j],
                        before.vertices.len() as u32,
                    ));
                let vert_start: u32 = self.vertices.len() as u32;
                let tri_start: u32 = self.triangles.len() as u32;
                push_vertices(&mut self.vertices, object, baked);
                push_triangles(&mut self.triangles, faces, vert_start);
                self.ranges.push(
                    RtMeshRange {
                        vert_start,
                        vert_count: coords.len() as u32,
                        tri_start,
                        tri_count: faces.len() as u32,
                    },
                );
                assert(self@ =~= with_mesh(before, *object, *baked));
            },
            _ => {},
        }
    }

    /// Adds a traced object, which shares the stored mesh `shared` or stores its own.
    fn add_object(&mut self, object: &Object3d, baked: &BakedObject, shared: Option<u32>)
        requires
            object.has_geometry(),
            baked.fits(*object),
            shared is None ==> forall|j: int|
                0 <= j < object.faces().len() ==> face_fits(
                    #[trigger] object.faces()[j],
                    old(self)@.vertices.len() as u32,
                ),
        ensures
            final(self)@ == with_object(old(self)@, *object, *baked, shared),
    {
        let mesh_id: u32 = match shared {
            Some(id) => id,
            None => {
                let id: u32 = self.ranges.len() as u32;
                self.add_mesh(object, baked);
                id
            },
        };
        self.add_placements(object, baked, mesh_id);
    }

    /// Adds the placements of a traced object.
    fn add_placements(&mut self, object: &Object3d, baked: &BakedObject, mesh_id: u32)
        requires
            object.has_geometry(),
            baked.fits(*object),
        ensures
            final(self)@ == with_placements(old(self)@, *object, *baked, mesh_id),
    {
        match &object.mesh.faces {
            Some(faces) => {
                let ghost before = self@;
                assert(faces@ == object.faces());
                let ghost first_layer = before.textures.len();
                let base_material = push_material_textures(&mut self.textures, &object.data);
                let skinned = object.is_skinned();
                let emissive = baked.is_emissive();
                let count: usize = object.placement_count();
                let ghost after = with_placements(before, *object, *baked, mesh_id);
                assert(self@.vertices == after.vertices);
                assert(self@.triangles == after.triangles);
                assert(self@.ranges == after.ranges);
                assert(self@.textures == after.textures);
                let mut k: usize = 0;
                assert(self.instances@ =~= before.instances + Seq::new(
                    0,
                    |k: int|
                        object_instance(
                            *object,
                            *baked,
                            k,
                            mesh_id,
                            (before.materials.len() + k) as u32,
                        ),
                ));
                assert(self.materials@ =~= before.materials + Seq::new(
                    0,
                    |k: int|
                        object_material(object.data, first_layer, baked.instances@[k].base_color),
                ));
                assert(self.emitters@ =~= before.emitters + Seq::<RtEmitter>::empty());
                while k < count
                    invariant
                        k <= count,
                        count == object.placements(),
                        skinned == object.skinned(),
                        emissive == baked.emits(),
                        object.has_geometry(),
                        faces@ == object.faces(),
                        baked.fits(*object),
                        base_material == object_material(
                            object.data,
                            first_layer,
                            [
                                object.data.color.r,
                                object.data.color.g,
                                object.data.color.b,
                                object.data.color.a,
                            ],
                        ),
                        self@.vertices == after.vertices,
                        self@.triangles == after.triangles,
                        self@.ranges == after.ranges,
                        self@.textures == after.textures,
                        self.instances@ == before.instances + Seq::new(
                            k as nat,
                            |k: int|
                                object_instance(
                                    *object,
                                    *baked,
                                    k,
                                    mesh_id,
                                    (before.materials.len() + k) as u32,
                                ),
                        ),
                        self.materials@ == before.materials + Seq::new(
                            k as nat,
                            |k: int|
                                object_material(
                                    object.data,
                                    first_layer,
                                    baked.instances@[k].base_color,
                                ),
                        ),
                        self.emitters@ == before.emitters + if emissive {
                            object_emitters(*object, *baked, k as nat)
                        } else {
                            Seq::empty()
                        },
                    decreases count - k,
                {
                    let instance = &baked.instances[k];
                    let object_to_world = if skinned {
                        identity_matrix()
                    } else {
                        instance.object_to_world
                    };
                    let world_to_object = if skinned {
                        identity_matrix()
                    } else {
                        instance.world_to_object
                    };
                    let material_id: u32 = self.materials.len() as u32;
                    let mut material = base_material;
                    material.base_color = instance.base_color;
                    self.materials.push(material);
                    self.instances.push(
                        RtInstance {
                            world_to_object,
                            object_to_world,
                            mesh_id,
                            material_id,
                            node_offset: 0,
                            tri_offset: 0,
                        },
                    );
                    assert(self.instances@ =~= before.instances + Seq::new(
                        (k + 1) as nat,
                        |k: int|
                            object_instance(
                                *object,
                                *baked,
                                k,
                                mesh_id,
                                (before.materials.len() + k) as u32,
                            ),
                    ));
                    assert(self.materials@ =~= before.materials + Seq::new(
                        (k + 1) as nat,
                        |k: int|
                            object_material(
                                object.data,
                                first_layer,
                                baked.instances@[k].base_color,
                            ),
                    ));
                    if emissive {
                        push_emitters(&mut self.emitters, object, baked, faces, k);
                        assert(self.emitters@ =~= before.emitters + object_emitters(
                            *object,
                            *baked,
                            (k + 1) as nat,
                        ));
                    }
                    k = k + 1;
                }
                assert(self@ =~= after);
            },
            _ => {},
        }
    }
}

/// Gathering stores the meshes of the table.
pub proof fn lemma_stored_meshes(
    nodes: Seq<SceneNode3d>,
    baked: Seq<BakedObject>,
    render_layers: u32,
)
    ensures
        gathered(nodes, baked, render_layers).vertices.len() == mesh_table(
            nodes,
            render_layers,
        ).vertices,
        gathered(nodes, baked, render_layers).ranges.len() == mesh_table(
            nodes,
            render_layers,
        ).meshes,
    decreases nodes.len(),
{
    if nodes.len() > 0 {
        lemma_stored_meshes(nodes.drop_last(), baked.drop_last(), render_layers);
    }
}

/// The meshes that later objects can share, by the address of their handle.
struct MeshIds {
    ids: HashMap<u64, u32>,
}

impl View for MeshIds {
    type V = Map<u64, u32>;

    closed spec fn view(&self) -> Map<u64, u32> {
        self.ids@
    }
}

impl MeshIds {
    fn new() -> (ids: MeshIds)
        ensures
            ids@ == Map::<u64, u32>::empty(),
    {
        MeshIds { ids: HashMap::new() }
    }

    /// The stored mesh that an object shares.
    fn find(&self, object: &Object3d) -> (shared: Option<u32>)
        ensures
            forall|table: MeshTable|
                table.ids == self@ ==> shared == #[trigger] table.shared(*object),
    {
        if !object.is_undeformed() {
            return None;
        }
        match self.ids.get(&object.mesh.handle.address) {
            Some(id) => Some(*id),
            None => None,
        }
    }

    /// Records the mesh of an object that was stored as mesh `id`, if it can be shared.
    fn add(&mut self, object: &Object3d, id: u32)
        ensures
            final(self)@ == if object.undeformed() {
                old(self)@.insert(object.mesh.handle.address, id)
            } else {
                old(self)@
            },
    {
        if object.is_undeformed() {
            self.ids.insert(object.mesh.handle.address, id);
        }
    }
}

fn are_faces_fit(faces: &Vec<[u32; 3]>, vert_start: u32) -> (r: bool)
    ensures
        r == forall|j: int| 0 <= j < faces@.len() ==> face_fits(#[trigger] faces@[j], vert_start),
{
    let mut j: usize = 0;
    while j < faces.len()
        invariant
            j <= faces.len(),
            forall|i: int| 0 <= i < j ==> face_fits(#[trigger] faces@[i], vert_start),
        decreases faces.len() - j,
    {
        let face: &[u32; 3] = &faces[j];
        let room: u32 = u32::MAX - vert_start;
        if face[0] > room || face[1] > room || face[2] > room {
            assert(!face_fits(faces@[j as int], vert_start));
            return false;
        }
        j = j + 1;
    }
    true
}

/// Whether the nodes can be gathered with the computed numbers `baked`.
pub fn can_gather(
    nodes: &Vec<SceneNode3d>,
    baked: &Vec<BakedObject>,
    render_layers: u32,
) -> (r: bool)
    ensures
        r == gatherable(nodes@, baked@, render_layers),
{
    if nodes.len() != baked.len() {
        return false;
    }
    let mut ids = MeshIds::new();
    let mut meshes: usize = 0;
    let mut vertices: u128 = 0;
    let mut i: usize = 0;
    while i < nodes.len()
        invariant
            i <= nodes.len(),
            nodes.len() == baked.len(),
            ids@ == mesh_table(nodes@.take(i as int), render_layers).ids,
            meshes == mesh_table(nodes@.take(i as int), render_layers).meshes,
            meshes <= i,
            vertices == mesh_table(nodes@.take(i as int), render_layers).vertices,
            vertices <= i * (u64::MAX as int),
            forall|k: int|
                0 <= k < i && (#[trigger] nodes@[k]).traced(render_layers) ==> {
                    &&& baked@[k].fits(nodes@[k].object->0)
                    &&& mesh_table(nodes@.take(k), render_layers).shared(nodes@[k].object->0)
                        is None ==> indices_fit(nodes@, render_layers, k)
                },
        decreases nodes.len() - i,
    {
        let node = &nodes[i];
        assert(nodes@.take(i + 1).drop_last() =~= nodes@.take(i as int));
        assert(i * (u64::MAX as int) <= (i + 1) * (u64::MAX as int)) by (nonlinear_arith);
        if node.is_traced(render_layers) {
            match &node.object {
                Some(object) => match (&object.mesh.coords, &object.mesh.faces) {
                    (Some(coords), Some(faces)) => {
                        assert(faces@ == nodes@[i as int].object->0.faces());
                        let ghost table = mesh_table(nodes@.take(i as int), render_layers);
                        let shared = ids.find(object);
                        assert(shared == table.shared(*object));
                        if !baked[i].is_fit(object) || (shared.is_none() && !are_faces_fit(
                            faces,
                            vertices as u32,
                        )) {
                            assert(nodes@[i as int].traced(render_layers));
                            return false;
                        }
                        assert(i * (u64::MAX as int) + (u64::MAX as int) == (i + 1) * (
                        u64::MAX as int)) by (nonlinear_arith);
                        assert((i + 1) * (u64::MAX as int) <= (u64::MAX as int) * (u64::MAX as int))
                            by (nonlinear_arith)
                            requires
                                i + 1 <= u64::MAX,
                        ;
                        if shared.is_none() {
                            ids.add(object, meshes as u32);
                            meshes = meshes + 1;
                            vertices = vertices + coords.len() as u128;
                        }
                    },
                    _ => {},
                },
                None => {},
            }
        }
        i = i + 1;
    }
    true
}

/// Walks the visible nodes of a scene, in traversal order, and builds the arrays
/// of the GPU scene, together with its content hashes.
///
/// `baked[i]` are the computed numbers of node `i`; those of a node that is not
/// traced are not read. `render_layers` is the camera's layer mask.
#[verifier::rlimit(60)]
#[verifier::spinoff_prover]
pub fn gather(
    nodes: &Vec<SceneNode3d>,
    baked: &Vec<BakedObject>,
    lights: &LightCollection,
    render_layers: u32,
) -> (scene: RtScene)
    requires
        gatherable(nodes@, baked@, render_layers),
    ensures
        scene.model() == gathered(nodes@, baked@, render_layers),
        scene.lights@ == lights.lights@.map_values(|light: CollectedLight| rt_light(light)),
        scene.ambient == lights.ambient,
        scene.ambient_color == [
            lights.ambient_color.r,
            lights.ambient_color.g,
            lights.ambient_color.b,
        ],
        scene.fog_color == [
            lights.fog.color.r,
            lights.fog.color.g,
            lights.fog.color.b,
            lights.fog.color.a,
        ],
        scene.fog_params == lights.fog.params,
        scene.geom_hash == geometry_hash(nodes@, *lights, render_layers),
        scene.xform_hash == transform_hash(nodes@, render_layers),
{
    let mut arrays = SceneArrays::new();
    let mut ids = MeshIds::new();
    let mut hasher = Fnv::new();
    let mut xform_hasher = Fnv::new();
    let mut i: usize = 0;
    while i < nodes.len()
        invariant
            i <= nodes.len(),
            gatherable(nodes@, baked@, render_layers),
            arrays@ == gathered(nodes@.take(i as int), baked@.take(i as int), render_layers),
            ids@ == mesh_table(nodes@.take(i as int), render_layers).ids,
            hasher@ == nodes_geometry_words(nodes@.take(i as int), render_layers),
            xform_hasher@ == nodes_transform_words(nodes@.take(i as int), render_layers),
        decreases nodes.len() - i,
    {
        let node = &nodes[i];
        assert(nodes@.take(i + 1).drop_last() =~= nodes@.take(i as int));
        assert(baked@.take(i + 1).drop_last() =~= baked@.take(i as int));
        if node.is_traced(render_layers) {
            match &node.object {
                Some(object) => {
                    let ghost table = mesh_table(nodes@.take(i as int), render_layers);
                    let shared = ids.find(object);
                    proof {
                        lemma_stored_meshes(
                            nodes@.take(i as int),
                            baked@.take(i as int),
                            render_layers,
                        );
                        assert(nodes@[i as int].traced(render_layers));
                        assert(shared == table.shared(*object));
                        assert(shared is None ==> indices_fit(nodes@, render_layers, i as int));
                    }
                    if shared.is_none() {
                        ids.add(object, arrays.ranges.len() as u32);
                    }
                    arrays.add_object(object, &baked[i], shared);
                },
                None => {},
            }
            hash_node(&mut hasher, &mut xform_hasher, node, render_layers);
        }
        i = i + 1;
    }
    assert(nodes@.take(i as int) =~= nodes@);
    assert(baked@.take(i as int) =~= baked@);
    let mut rt_lights: Vec<RtLight> = Vec::new();
    let list = &lights.lights;
    let ghost converted = list@.map_values(|light: CollectedLight| rt_light(light));
    let mut k: usize = 0;
    while k < list.len()
        invariant
            k <= list.len(),
            converted == list@.map_values(|light: CollectedLight| rt_light(light)),
            rt_lights@ == converted.take(k as int),
        decreases list.len() - k,
    {
        rt_lights.push(collected_to_rt(&list[k]));
        assert(rt_lights@ =~= converted.take(k + 1));
        k = k + 1;
    }
    assert(converted.take(k as int) =~= converted);
    hash_lighting(&mut hasher, lights);
    let ambient_color = lights.ambient_color;
    let fog_color = lights.fog.color;
    let scene = RtScene {
        mesh_vertices: arrays.vertices,
        mesh_triangles: arrays.triangles,
        mesh_ranges: arrays.ranges,
        instances: arrays.instances,
        materials: arrays.materials,
        lights: rt_lights,
        emitters: arrays.emitters,
        textures: arrays.textures,
        ambient: lights.ambient,
        ambient_color: [ambient_color.r, ambient_color.g, ambient_color.b],
        fog_color: [fog_color.r, fog_color.g, fog_color.b, fog_color.a],
        fog_params: lights.fog.params,
        geom_hash: hasher.finish(),
        xform_hash: xform_hasher.finish(),
    };
    scene
}

/// Every traced node that is not skinned has as many matrices as instances.
pub open spec fn placeable(
    nodes: Seq<SceneNode3d>,
    placed: Seq<Vec<Mat4>>,
    render_layers: u32,
) -> bool {
    &&& nodes.len() == placed.len()
    &&& forall|i: int|
        0 <= i < nodes.len() && (#[trigger] nodes[i]).traced(render_layers)
            && !nodes[i].object->0.skinned() ==> placed[i]@.len()
            == nodes[i].object->0.instances.count
}

/// Whether `placed` has the matrices of every instance that can move.
pub fn can_place(
    nodes: &Vec<SceneNode3d>,
    placed: &Vec<Vec<Mat4>>,
    render_layers: u32,
) -> (r: bool)
    ensures
        r == placeable(nodes@, placed@, render_layers),
{
    if nodes.len() != placed.len() {
        return false;
    }
    let mut i: usize = 0;
    while i < nodes.len()
        invariant
            i <= nodes.len(),
            nodes.len() == placed.len(),
            forall|k: int|
                0 <= k < i && (#[trigger] nodes@[k]).traced(render_layers)
                    && !nodes@[k].object->0.skinned() ==> placed@[k]@.len()
                    == nodes@[k].object->0.instances.count,
        decreases nodes.len() - i,
    {
        let node = &nodes[i];
        if node.is_traced(render_layers) {
            match &node.object {
                Some(object) => {
                    if !object.is_skinned() && placed[i].len() != object.instances.count {
                        assert(nodes@[i as int].traced(render_layers));
                        return false;
                    }
                },
                None => {},
            }
        }
        i = i + 1;
    }
    true
}

/// The placement of every instance, in the order in which gathering emits the
/// instances. `placed[i]` are the matrices of the instances of node `i`; those of a
/// node that is skinned or not traced are not read. A skinned object, which is
/// baked in world space, contributes one identity.
pub fn gather_transforms(
    nodes: &Vec<SceneNode3d>,
    placed: &Vec<Vec<Mat4>>,
    render_layers: u32,
) -> (transforms: Vec<Mat4>)
    requires
        placeable(nodes@, placed@, render_layers),
    ensures
        transforms@ == gathered_transforms(nodes@, placed@, render_layers),
{
    let mut out: Vec<Mat4> = Vec::new();
    let mut i: usize = 0;
    while i < nodes.len()
        invariant
            i <= nodes.len(),
            placeable(nodes@, placed@, render_layers),
            out@ == gathered_transforms(
                nodes@.take(i as int),
                placed@.take(i as int),
                render_layers,
            ),
        decreases nodes.len() - i,
    {
        let node = &nodes[i];
        assert(nodes@.take(i + 1).drop_last() =~= nodes@.take(i as int));
        assert(placed@.take(i + 1).drop_last() =~= placed@.take(i as int));
        if node.is_traced(render_layers) {
            match &node.object {
                Some(object) => {
                    if object.is_skinned() {
                        out.push(identity_matrix());
                    } else {
                        let matrices = &placed[i];
                        let ghost before = out@;
                        let mut k: usize = 0;
                        assert(out@ =~= before + matrices@.take(0));
                        while k < matrices.len()
                            invariant
                                k <= matrices.len(),
                                out@ == before + matrices@.take(k as int),
                            decreases matrices.len() - k,
                        {
                            out.push(matrices[k]);
                            assert(out@ =~= before + matrices@.take(k + 1));
                            k = k + 1;
                        }
                        assert(matrices@.take(k as int) =~= matrices@);
                    }
                },
                None => {},
            }
        }
        i = i + 1;
    }
    assert(nodes@.take(i as int) =~= nodes@);
    assert(placed@.take(i as int) =~= placed@);
    out
}

} // verus!
