//! Content hashes of a scene.
//!
//! Two hashes tell what changed between frames. The geometry hash covers
//! everything except world transforms: a change of it calls for a full rebuild of
//! the GPU scene. The transform hash covers the world transforms only: a change of
//! it alone calls for new instance transforms.

use crate::float::F32;
use crate::fnv::{fnv1a, number_word, vec3_words, Fnv};
use crate::records::{RT_LIGHT_DIRECTIONAL, RT_LIGHT_POINT, RT_LIGHT_SPOT};
use crate::scene::{
    CollectedLight, InstancesBuffer3d, LightCollection, LightType, Mat4, ObjectData3d, Pose3,
    SceneNode3d, TextureHandle, Vec3, ONE_BITS,
};
use vstd::prelude::*;

verus! {

/// Low half of a texture's address, or `0` where there is no texture.
pub open spec fn texture_word(texture: Option<TextureHandle>) -> u32 {
    match texture {
        Some(t) => t.address as u32,
        None => 0,
    }
}

/// `1` for `true`, `0` for `false`.
pub open spec fn flag_word(flag: bool) -> u32 {
    if flag {
        1
    } else {
        0
    }
}

/// The hashed words of an object's metalness, roughness and colors.
pub open spec fn appearance_words(data: ObjectData3d) -> Seq<u32> {
    seq![
        number_word(data.metallic),
        number_word(data.roughness),
        number_word(data.color.r),
        number_word(data.color.g),
        number_word(data.color.b),
        number_word(data.color.a),
        number_word(data.emissive.r),
        number_word(data.emissive.g),
        number_word(data.emissive.b),
    ]
}

/// The hashed words of an object's surface model.
pub open spec fn surface_words(data: ObjectData3d) -> Seq<u32> {
    seq![
        data.bsdf_tag,
        number_word(data.ior),
        number_word(data.transmission),
        number_word(data.specular_tint.r),
        number_word(data.specular_tint.g),
        number_word(data.specular_tint.b),
        number_word(data.subsurface),
        number_word(data.subsurface_radius),
        number_word(data.reflectance),
        data.light_layers,
    ]
}

/// The hashed words of an object's shadow flag, clearcoat and volume absorption.
pub open spec fn layer_words(data: ObjectData3d) -> Seq<u32> {
    seq![
        flag_word(data.casts_shadows),
        number_word(data.clearcoat),
        number_word(data.clearcoat_roughness),
        number_word(data.attenuation_color.r),
        number_word(data.attenuation_color.g),
        number_word(data.attenuation_color.b),
        number_word(data.attenuation_distance),
    ]
}

/// The hashed words of an object's textures and element counts.
pub open spec fn identity_words(data: ObjectData3d, ncoords: nat, nfaces: nat) -> Seq<u32> {
    seq![
        texture_word(Some(data.texture)),
        texture_word(data.normal_map),
        texture_word(data.metallic_roughness_map),
        texture_word(data.emissive_map),
        ncoords as u32,
        nfaces as u32,
    ]
}

/// The hashed words of an object's material, textures and element counts.
pub open spec fn object_words(data: ObjectData3d, ncoords: nat, nfaces: nat) -> Seq<u32> {
    appearance_words(data) + surface_words(data) + layer_words(data) + identity_words(
        data,
        ncoords,
        nfaces,
    )
}

/// The four components of a color or of a matrix column, as hashed words.
pub open spec fn four_words(v: [F32; 4]) -> Seq<u32> {
    seq![number_word(v[0]), number_word(v[1]), number_word(v[2]), number_word(v[3])]
}

/// The hashed words of a list of colors.
pub open spec fn colors_words(colors: Seq<[F32; 4]>) -> Seq<u32>
    decreases colors.len(),
{
    if colors.len() == 0 {
        Seq::empty()
    } else {
        colors_words(colors.drop_last()) + four_words(colors.last())
    }
}

/// The hashed words of an object's instance count and instance colors.
pub open spec fn instances_words(instances: InstancesBuffer3d) -> Seq<u32> {
    seq![instances.count as u32] + match instances.colors {
        Some(colors) => colors_words(colors@),
        None => Seq::empty(),
    }
}

/// The hashed words of a matrix, column by column.
pub open spec fn matrix_words(m: Mat4) -> Seq<u32> {
    four_words(m[0]) + four_words(m[1]) + four_words(m[2]) + four_words(m[3])
}

/// The hashed words of a list of matrices.
pub open spec fn matrices_words(ms: Seq<Mat4>) -> Seq<u32>
    decreases ms.len(),
{
    if ms.len() == 0 {
        Seq::empty()
    } else {
        matrices_words(ms.drop_last()) + matrix_words(ms.last())
    }
}

/// The hashed words of an object's joint palette.
pub open spec fn skin_words(data: ObjectData3d) -> Seq<u32> {
    match data.skin {
        Some(skin) => matrices_words(skin.palette@),
        None => Seq::empty(),
    }
}

/// The hashed words of an object's morph weights.
pub open spec fn morph_words(data: ObjectData3d) -> Seq<u32> {
    data.morph_weights@.map_values(|w: F32| number_word(w))
}

/// The hashed words of a list of vectors.
pub open spec fn vectors_words(vs: Seq<Vec3>) -> Seq<u32>
    decreases vs.len(),
{
    if vs.len() == 0 {
        Seq::empty()
    } else {
        vectors_words(vs.drop_last()) + vec3_words(vs.last())
    }
}

/// The hashed words of a list of vectors that may be absent.
pub open spec fn optional_vectors_words(vs: Option<Vec<Vec3>>) -> Seq<u32> {
    match vs {
        Some(vs) => vectors_words(vs@),
        None => Seq::empty(),
    }
}

/// The hashed words of an object's world transform: the node's pose and scale,
/// then the offsets and deformations of its instances.
pub open spec fn transform_words(
    pose: Pose3,
    scale: Vec3,
    instances: InstancesBuffer3d,
) -> Seq<u32> {
    vec3_words(pose.translation) + seq![
        number_word(pose.rotation.x),
        number_word(pose.rotation.y),
        number_word(pose.rotation.z),
        number_word(pose.rotation.w),
    ] + vec3_words(scale) + optional_vectors_words(instances.positions) + optional_vectors_words(
        instances.deformations,
    )
}

/// The hashed words of what kind of light a light is: its tag, the distance at which it
/// ends and the cosines of its cone, as the kernel reads them.
pub open spec fn light_type_words(light_type: LightType) -> Seq<u32> {
    match light_type {
        LightType::Point { attenuation_radius } => seq![
            RT_LIGHT_POINT,
            number_word(attenuation_radius),
            ONE_BITS,
            0,
        ],
        LightType::Directional => seq![RT_LIGHT_DIRECTIONAL, 0, ONE_BITS, 0],
        LightType::Spot { inner_cone_cos, outer_cone_cos, attenuation_radius } => seq![
            RT_LIGHT_SPOT,
            number_word(attenuation_radius),
            number_word(inner_cone_cos),
            number_word(outer_cone_cos),
        ],
    }
}

/// The hashed words of a light.
pub open spec fn light_words(light: CollectedLight) -> Seq<u32> {
    light_type_words(light.light_type) + vec3_words(light.world_position) + vec3_words(
        light.world_direction,
    ) + vec3_words(light.color) + seq![
        number_word(light.intensity),
        number_word(light.radius),
        light.layers,
        flag_word(light.casts_shadows),
    ]
}

/// The hashed words of a list of lights.
pub open spec fn lights_words(lights: Seq<CollectedLight>) -> Seq<u32>
    decreases lights.len(),
{
    if lights.len() == 0 {
        Seq::empty()
    } else {
        lights_words(lights.drop_last()) + light_words(lights.last())
    }
}

/// The hashed words of the ambient light and the fog.
pub open spec fn globals_words(lights: LightCollection) -> Seq<u32> {
    seq![
        number_word(lights.ambient),
        number_word(lights.ambient_color.r),
        number_word(lights.ambient_color.g),
        number_word(lights.ambient_color.b),
        number_word(lights.fog.color.r),
        number_word(lights.fog.color.g),
        number_word(lights.fog.color.b),
        number_word(lights.fog.color.a),
    ] + four_words(lights.fog.params)
}

/// What a traced node contributes to the geometry hash.
pub open spec fn node_geometry_words(node: SceneNode3d) -> Seq<u32> {
    let object = node.object->0;
    object_words(object.data, object.coords().len(), object.faces().len()) + instances_words(
        object.instances,
    ) + skin_words(object.data) + morph_words(object.data)
}

/// What a traced node contributes to the transform hash.
pub open spec fn node_transform_words(node: SceneNode3d) -> Seq<u32> {
    transform_words(node.pose, node.scale, node.object->0.instances)
}

/// What the nodes contribute to the geometry hash, in order.
pub open spec fn nodes_geometry_words(nodes: Seq<SceneNode3d>, render_layers: u32) -> Seq<u32>
    decreases nodes.len(),
{
    if nodes.len() == 0 {
        Seq::empty()
    } else {
        let before = nodes_geometry_words(nodes.drop_last(), render_layers);
        if nodes.last().traced(render_layers) {
            before + node_geometry_words(nodes.last())
        } else {
            before
        }
    }
}

/// What the nodes contribute to the transform hash, in order.
pub open spec fn nodes_transform_words(nodes: Seq<SceneNode3d>, render_layers: u32) -> Seq<u32>
    decreases nodes.len(),
{
    if nodes.len() == 0 {
        Seq::empty()
    } else {
        let before = nodes_transform_words(nodes.drop_last(), render_layers);
        if nodes.last().traced(render_layers) {
            before + node_transform_words(nodes.last())
        } else {
            before
        }
    }
}

/// Everything that the geometry hash of a scene covers.
pub open spec fn geometry_content(
    nodes: Seq<SceneNode3d>,
    lights: LightCollection,
    render_layers: u32,
) -> Seq<u32> {
    nodes_geometry_words(nodes, render_layers) + lights_words(lights.lights@) + globals_words(
        lights,
    )
}

/// The geometry hash of a scene.
pub open spec fn geometry_hash(
    nodes: Seq<SceneNode3d>,
    lights: LightCollection,
    render_layers: u32,
) -> u64 {
    fnv1a(geometry_content(nodes, lights, render_layers))
}

/// The transform hash of a scene.
pub open spec fn transform_hash(nodes: Seq<SceneNode3d>, render_layers: u32) -> u64 {
    fnv1a(nodes_transform_words(nodes, render_layers))
}

/// Concatenation is associative.
pub(crate) proof fn lemma_concat<T>(a: Seq<T>, b: Seq<T>, c: Seq<T>)
    ensures
        (a + b) + c == a + (b + c),
{
    assert((a + b) + c =~= a + (b + c));
}

fn bool_word(flag: bool) -> (w: u32)
    ensures
        w == flag_word(flag),
{
    if flag {
        1
    } else {
        0
    }
}

fn texture_id(texture: Option<TextureHandle>) -> (w: u32)
    ensures
        w == texture_word(texture),
{
    match texture {
        Some(t) => t.address as u32,
        None => 0,
    }
}

fn write_four(h: &mut Fnv, v: &[F32; 4])
    ensures
        final(h)@ == old(h)@ + four_words(*v),
{
    h.write_f32(v[0]);
    h.write_f32(v[1]);
    h.write_f32(v[2]);
    h.write_f32(v[3]);
    assert(h@ =~= old(h)@ + four_words(*v));
}

fn write_matrix(h: &mut Fnv, m: &Mat4)
    ensures
        final(h)@ == old(h)@ + matrix_words(*m),
{
    write_four(h, &m[0]);
    write_four(h, &m[1]);
    write_four(h, &m[2]);
    write_four(h, &m[3]);
    assert(h@ =~= old(h)@ + matrix_words(*m));
}

fn write_vectors(h: &mut Fnv, vs: &Vec<Vec3>)
    ensures
        final(h)@ == old(h)@ + vectors_words(vs@),
{
    let mut i: usize = 0;
    assert(h@ =~= old(h)@ + vectors_words(vs@.take(0)));
    while i < vs.len()
        invariant
            i <= vs.len(),
            h@ == old(h)@ + vectors_words(vs@.take(i as int)),
        decreases vs.len() - i,
    {
        h.write_vec3(vs[i]);
        assert(vs@.take(i + 1).drop_last() =~= vs@.take(i as int));
        proof {
            lemma_concat(old(h)@, vectors_words(vs@.take(i as int)), vec3_words(vs@[i as int]));
        }
        i = i + 1;
    }
    assert(vs@.take(i as int) =~= vs@);
}

fn hash_appearance(h: &mut Fnv, data: &ObjectData3d)
    ensures
        final(h)@ == old(h)@ + appearance_words(*data),
{
    h.write_f32(data.metallic);
    h.write_f32(data.roughness);
    h.write_f32(data.color.r);
    h.write_f32(data.color.g);
    h.write_f32(data.color.b);
    h.write_f32(data.color.a);
    h.write_f32(data.emissive.r);
    h.write_f32(data.emissive.g);
    h.write_f32(data.emissive.b);
    assert(h@ =~= old(h)@ + appearance_words(*data));
}

fn hash_surface(h: &mut Fnv, data: &ObjectData3d)
    ensures
        final(h)@ == old(h)@ + surface_words(*data),
{
    h.write_u32(data.bsdf_tag);
    h.write_f32(data.ior);
    h.write_f32(data.transmission);
    h.write_f32(data.specular_tint.r);
    h.write_f32(data.specular_tint.g);
    h.write_f32(data.specular_tint.b);
    h.write_f32(data.subsurface);
    h.write_f32(data.subsurface_radius);
    h.write_f32(data.reflectance);
    h.write_u32(data.light_layers);
    assert(h@ =~= old(h)@ + surface_words(*data));
}

fn hash_layers(h: &mut Fnv, data: &ObjectData3d)
    ensures
        final(h)@ == old(h)@ + layer_words(*data),
{
    h.write_u32(bool_word(data.casts_shadows));
    h.write_f32(data.clearcoat);
    h.write_f32(data.clearcoat_roughness);
    h.write_f32(data.attenuation_color.r);
    h.write_f32(data.attenuation_color.g);
    h.write_f32(data.attenuation_color.b);
    h.write_f32(data.attenuation_distance);
    assert(h@ =~= old(h)@ + layer_words(*data));
}

/// Folds the material, the texture identities and the element counts of an object
/// into the geometry hash. Vertex data is not hashed.
#[verifier::rlimit(60)]
#[verifier::spinoff_prover]
pub fn hash_object(h: &mut Fnv, data: &ObjectData3d, ncoords: usize, nfaces: usize)
    ensures
        final(h)@ == old(h)@ + object_words(*data, ncoords as nat, nfaces as nat),
{
    hash_appearance(h, data);
    hash_surface(h, data);
    hash_layers(h, data);
    assert(h@ =~= old(h)@ + (appearance_words(*data) + surface_words(*data) + layer_words(*data)));
    let ghost before = h@;
    h.write_u32(texture_id(Some(data.texture)));
    h.write_u32(texture_id(data.normal_map));
    h.write_u32(texture_id(data.metallic_roughness_map));
    h.write_u32(texture_id(data.emissive_map));
    h.write_u32(ncoords as u32);
    h.write_u32(nfaces as u32);
    assert(h@ =~= before + identity_words(*data, ncoords as nat, nfaces as nat));
    proof {
        lemma_concat(
            old(h)@,
            appearance_words(*data) + surface_words(*data) + layer_words(*data),
            identity_words(*data, ncoords as nat, nfaces as nat),
        );
    }
}

/// Folds an object's instance count and instance colors into the geometry hash.
pub fn hash_instances(h: &mut Fnv, instances: &InstancesBuffer3d)
    ensures
        final(h)@ == old(h)@ + instances_words(*instances),
{
    h.write_u32(instances.count as u32);
    let ghost start = old(h)@ + seq![instances.count as u32];
    assert(h@ =~= start);
    match &instances.colors {
        Some(colors) => {
            let mut i: usize = 0;
            assert(h@ =~= start + colors_words(colors@.take(0)));
            while i < colors.len()
                invariant
                    i <= colors.len(),
                    h@ == start + colors_words(colors@.take(i as int)),
                decreases colors.len() - i,
            {
                write_four(h, &colors[i]);
                assert(colors@.take(i + 1).drop_last() =~= colors@.take(i as int));
                proof {
                    lemma_concat(
                        start,
                        colors_words(colors@.take(i as int)),
                        four_words(colors@[i as int]),
                    );
                }
                i = i + 1;
            }
            assert(colors@.take(i as int) =~= colors@);
            proof {
                lemma_concat(old(h)@, seq![instances.count as u32], colors_words(colors@));
            }
        },
        None => {
            assert(h@ =~= old(h)@ + instances_words(*instances));
        },
    }
}

/// Folds an object's joint palette, if it has one, into the geometry hash.
pub fn hash_skin(h: &mut Fnv, data: &ObjectData3d)
    ensures
        final(h)@ == old(h)@ + skin_words(*data),
{
    match &data.skin {
        Some(skin) => {
            let palette = &skin.palette;
            let mut i: usize = 0;
            assert(h@ =~= old(h)@ + matrices_words(palette@.take(0)));
            while i < palette.len()
                invariant
                    i <= palette.len(),
                    h@ == old(h)@ + matrices_words(palette@.take(i as int)),
                decreases palette.len() - i,
            {
                write_matrix(h, &palette[i]);
                assert(palette@.take(i + 1).drop_last() =~= palette@.take(i as int));
                proof {
                    lemma_concat(
                        old(h)@,
                        matrices_words(palette@.take(i as int)),
                        matrix_words(palette@[i as int]),
                    );
                }
                i = i + 1;
            }
            assert(palette@.take(i as int) =~= palette@);
        },
        None => {
            assert(h@ =~= old(h)@ + skin_words(*data));
        },
    }
}

/// Folds an object's morph weights into the geometry hash.
pub fn hash_morph(h: &mut Fnv, data: &ObjectData3d)
    ensures
        final(h)@ == old(h)@ + morph_words(*data),
{
    let weights = &data.morph_weights;
    let mut i: usize = 0;
    assert(h@ =~= old(h)@ + morph_words(*data).take(0));
    while i < weights.len()
        invariant
            i <= weights.len(),
            weights == data.morph_weights,
            h@ == old(h)@ + morph_words(*data).take(i as int),
        decreases weights.len() - i,
    {
        h.write_f32(weights[i]);
        assert(h@ =~= old(h)@ + morph_words(*data).take(i + 1));
        i = i + 1;
    }
    assert(morph_words(*data).take(i as int) =~= morph_words(*data));
}

/// Folds an object's world transform into the transform hash.
pub fn hash_transforms(h: &mut Fnv, pose: Pose3, scale: Vec3, instances: &InstancesBuffer3d)
    ensures
        final(h)@ == old(h)@ + transform_words(pose, scale, *instances),
{
    h.write_vec3(pose.translation);
    h.write_f32(pose.rotation.x);
    h.write_f32(pose.rotation.y);
    h.write_f32(pose.rotation.z);
    h.write_f32(pose.rotation.w);
    h.write_vec3(scale);
    match &instances.positions {
        Some(positions) => write_vectors(h, positions),
        None => {},
    }
    match &instances.deformations {
        Some(deformations) => write_vectors(h, deformations),
        None => {},
    }
    assert(h@ =~= old(h)@ + transform_words(pose, scale, *instances));
}

/// Folds the kind of a light into the geometry hash.
fn hash_light_type(h: &mut Fnv, light_type: LightType)
    ensures
        final(h)@ == old(h)@ + light_type_words(light_type),
{
    match light_type {
        LightType::Point { attenuation_radius } => {
            h.write_u32(RT_LIGHT_POINT);
            h.write_f32(attenuation_radius);
            h.write_u32(ONE_BITS);
            h.write_u32(0);
        },
        LightType::Directional => {
            h.write_u32(RT_LIGHT_DIRECTIONAL);
            h.write_u32(0);
            h.write_u32(ONE_BITS);
            h.write_u32(0);
        },
        LightType::Spot { inner_cone_cos, outer_cone_cos, attenuation_radius } => {
            h.write_u32(RT_LIGHT_SPOT);
            h.write_f32(attenuation_radius);
            h.write_f32(inner_cone_cos);
            h.write_f32(outer_cone_cos);
        },
    }
    assert(h@ =~= old(h)@ + light_type_words(light_type));
}

/// Folds a light into the geometry hash.
pub fn hash_light(h: &mut Fnv, light: &CollectedLight)
    ensures
        final(h)@ == old(h)@ + light_words(*light),
{
    hash_light_type(h, light.light_type);
    h.write_vec3(light.world_position);
    h.write_vec3(light.world_direction);
    h.write_vec3(light.color);
    h.write_f32(light.intensity);
    h.write_f32(light.radius);
    h.write_u32(light.layers);
    h.write_u32(bool_word(light.casts_shadows));
    assert(h@ =~= old(h)@ + light_words(*light));
}

/// Folds the ambient light and the fog into the geometry hash.
pub fn hash_scene_globals(h: &mut Fnv, lights: &LightCollection)
    ensures
        final(h)@ == old(h)@ + globals_words(*lights),
{
    h.write_f32(lights.ambient);
    h.write_f32(lights.ambient_color.r);
    h.write_f32(lights.ambient_color.g);
    h.write_f32(lights.ambient_color.b);
    h.write_f32(lights.fog.color.r);
    h.write_f32(lights.fog.color.g);
    h.write_f32(lights.fog.color.b);
    h.write_f32(lights.fog.color.a);
    write_four(h, &lights.fog.params);
    assert(h@ =~= old(h)@ + globals_words(*lights));
}

/// Folds a traced node into the two hashes.
#[verifier::rlimit(60)]
#[verifier::spinoff_prover]
pub fn hash_node(hasher: &mut Fnv, xform_hasher: &mut Fnv, node: &SceneNode3d, render_layers: u32)
    requires
        node.traced(render_layers),
    ensures
        final(hasher)@ == old(hasher)@ + node_geometry_words(*node),
        final(xform_hasher)@ == old(xform_hasher)@ + node_transform_words(*node),
{
    match &node.object {
        Some(object) => match (&object.mesh.coords, &object.mesh.faces) {
            (Some(coords), Some(faces)) => {
                hash_object(hasher, &object.data, coords.len(), faces.len());
                hash_instances(hasher, &object.instances);
                hash_skin(hasher, &object.data);
                hash_morph(hasher, &object.data);
                hash_transforms(xform_hasher, node.pose, node.scale, &object.instances);
                assert(hasher@ =~= old(hasher)@ + node_geometry_words(*node));
            },
            _ => {},
        },
        None => {},
    }
}

/// Folds every light and the scene-wide lighting state into the geometry hash.
pub fn hash_lighting(h: &mut Fnv, lights: &LightCollection)
    ensures
        final(h)@ == old(h)@ + lights_words(lights.lights@) + globals_words(*lights),
{
    let list = &lights.lights;
    let mut i: usize = 0;
    assert(h@ =~= old(h)@ + lights_words(list@.take(0)));
    while i < list.len()
        invariant
            i <= list.len(),
            h@ == old(h)@ + lights_words(list@.take(i as int)),
        decreases list.len() - i,
    {
        hash_light(h, &list[i]);
        assert(list@.take(i + 1).drop_last() =~= list@.take(i as int));
        proof {
            lemma_concat(old(h)@, lights_words(list@.take(i as int)), light_words(list@[i as int]));
        }
        i = i + 1;
    }
    assert(list@.take(i as int) =~= list@);
    hash_scene_globals(h, lights);
}

/// The geometry hash and the transform hash of a scene, without building any of
/// its arrays: the pair that gathering the scene records. `nodes` are the visible
/// nodes in traversal order, and `render_layers` is the camera's layer mask.
#[verifier::rlimit(60)]
#[verifier::spinoff_prover]
pub fn scene_hashes(
    nodes: &Vec<SceneNode3d>,
    lights: &LightCollection,
    render_layers: u32,
) -> (hashes: (u64, u64))
    ensures
        hashes.0 == geometry_hash(nodes@, *lights, render_layers),
        hashes.1 == transform_hash(nodes@, render_layers),
{
    let mut hasher = Fnv::new();
    let mut xform_hasher = Fnv::new();
    let mut i: usize = 0;
    while i < nodes.len()
        invariant
            i <= nodes.len(),
            hasher@ == nodes_geometry_words(nodes@.take(i as int), render_layers),
            xform_hasher@ == nodes_transform_words(nodes@.take(i as int), render_layers),
        decreases nodes.len() - i,
    {
        let node = &nodes[i];
        assert(nodes@.take(i + 1).drop_last() =~= nodes@.take(i as int));
        if node.is_traced(render_layers) {
            hash_node(&mut hasher, &mut xform_hasher, node, render_layers);
        }
        i = i + 1;
    }
    assert(nodes@.take(i as int) =~= nodes@);
    hash_lighting(&mut hasher, lights);
    (hasher.finish(), xform_hasher.finish())
}

} // verus!
