//! Every property that the picture depends on is noticed when it changes.

use crate::content::{
    appearance_words, colors_words, flag_word, four_words, geometry_hash, globals_words,
    identity_words, instances_words, layer_words, light_type_words, light_words, lights_words,
    matrices_words, matrix_words, morph_words, node_geometry_words, node_transform_words,
    optional_vectors_words, skin_words, surface_words, texture_word, transform_hash,
    vectors_words,
};
use crate::float::{lemma_zero_bits, F32};
use crate::fnv::{number_word, vec3_words};
use crate::laws::content::{
    joined, law_changed_light_is_detected, law_changed_lighting_is_detected,
    law_changed_property_is_detected, law_motion_is_detected, lemma_changed_part,
};
use crate::scene::{
    CollectedLight, Color, Fog, LightCollection, LightType, Mat4, Object3d, ObjectData3d, Pose3,
    Quat, SceneNode3d, TextureHandle, Vec3,
};
use vstd::prelude::*;

verus! {

/// The two numbers have different patterns and are not the two zeros.
pub open spec fn changed(a: F32, b: F32) -> bool {
    &&& a.bits != b.bits
    &&& !((a.bits == 0 || a.bits == 0x8000_0000) && (b.bits == 0 || b.bits == 0x8000_0000))
}

/// The low half of a texture's address, zero where there is no texture.
pub open spec fn low_half(map: Option<TextureHandle>) -> int {
    match map {
        Some(texture) => texture.address as int % 0x1_0000_0000,
        None => 0,
    }
}

/// The words differ in exactly one place.
pub open spec fn one_word_differs(x: Seq<u32>, y: Seq<u32>, j: int) -> bool {
    &&& 0 <= j < x.len()
    &&& y == x.update(j, y[j])
    &&& y[j] != x[j]
}

proof fn lemma_changed_number(a: F32, b: F32)
    requires
        changed(a, b),
    ensures
        number_word(a) != number_word(b),
{
    lemma_zero_bits(a);
    lemma_zero_bits(b);
}

proof fn lemma_low_half(map: Option<TextureHandle>)
    ensures
        texture_word(map) == low_half(map),
{
    match map {
        Some(texture) => {
            let address = texture.address;
            assert(address as u32 == address % 0x1_0000_0000) by (bit_vector);
        },
        None => {},
    }
}

/// The two differ in exactly one of its metalness, its roughness or a component of its colors.
pub open spec fn appearance_differs(a: ObjectData3d, b: ObjectData3d) -> bool {
    ||| {
        &&& b == (ObjectData3d { metallic: b.metallic, ..a })
        &&& changed(a.metallic, b.metallic)
    }
    ||| {
        &&& b == (ObjectData3d { roughness: b.roughness, ..a })
        &&& changed(a.roughness, b.roughness)
    }
    ||| {
        &&& b == (ObjectData3d { color: Color { r: b.color.r, ..a.color }, ..a })
        &&& changed(a.color.r, b.color.r)
    }
    ||| {
        &&& b == (ObjectData3d { color: Color { g: b.color.g, ..a.color }, ..a })
        &&& changed(a.color.g, b.color.g)
    }
    ||| {
        &&& b == (ObjectData3d { color: Color { b: b.color.b, ..a.color }, ..a })
        &&& changed(a.color.b, b.color.b)
    }
    ||| {
        &&& b == (ObjectData3d { color: Color { a: b.color.a, ..a.color }, ..a })
        &&& changed(a.color.a, b.color.a)
    }
    ||| {
        &&& b == (ObjectData3d { emissive: Color { r: b.emissive.r, ..a.emissive }, ..a })
        &&& changed(a.emissive.r, b.emissive.r)
    }
    ||| {
        &&& b == (ObjectData3d { emissive: Color { g: b.emissive.g, ..a.emissive }, ..a })
        &&& changed(a.emissive.g, b.emissive.g)
    }
    ||| {
        &&& b == (ObjectData3d { emissive: Color { b: b.emissive.b, ..a.emissive }, ..a })
        &&& changed(a.emissive.b, b.emissive.b)
    }
}

/// The two differ in exactly one of its surface model, a number of it, or its light layers.
pub open spec fn surface_differs(a: ObjectData3d, b: ObjectData3d) -> bool {
    ||| {
        &&& b == (ObjectData3d { bsdf_tag: b.bsdf_tag, ..a })
        &&& a.bsdf_tag != b.bsdf_tag
    }
    ||| {
        &&& b == (ObjectData3d { ior: b.ior, ..a })
        &&& changed(a.ior, b.ior)
    }
    ||| {
        &&& b == (ObjectData3d { transmission: b.transmission, ..a })
        &&& changed(a.transmission, b.transmission)
    }
    ||| {
        &&& b == (ObjectData3d {
            specular_tint: Color { r: b.specular_tint.r, ..a.specular_tint },
            ..a
        })
        &&& changed(a.specular_tint.r, b.specular_tint.r)
    }
    ||| {
        &&& b == (ObjectData3d {
            specular_tint: Color { g: b.specular_tint.g, ..a.specular_tint },
            ..a
        })
        &&& changed(a.specular_tint.g, b.specular_tint.g)
    }
    ||| {
        &&& b == (ObjectData3d {
            specular_tint: Color { b: b.specular_tint.b, ..a.specular_tint },
            ..a
        })
        &&& changed(a.specular_tint.b, b.specular_tint.b)
    }
    ||| {
        &&& b == (ObjectData3d { subsurface: b.subsurface, ..a })
        &&& changed(a.subsurface, b.subsurface)
    }
    ||| {
        &&& b == (ObjectData3d { subsurface_radius: b.subsurface_radius, ..a })
        &&& changed(a.subsurface_radius, b.subsurface_radius)
    }
    ||| {
        &&& b == (ObjectData3d { reflectance: b.reflectance, ..a })
        &&& changed(a.reflectance, b.reflectance)
    }
    ||| {
        &&& b == (ObjectData3d { light_layers: b.light_layers, ..a })
        &&& a.light_layers != b.light_layers
    }
}

/// The two differ in exactly one of its shadow flag, its clearcoat or its absorption.
pub open spec fn layer_differs(a: ObjectData3d, b: ObjectData3d) -> bool {
    ||| {
        &&& b == (ObjectData3d { casts_shadows: b.casts_shadows, ..a })
        &&& a.casts_shadows != b.casts_shadows
    }
    ||| {
        &&& b == (ObjectData3d { clearcoat: b.clearcoat, ..a })
        &&& changed(a.clearcoat, b.clearcoat)
    }
    ||| {
        &&& b == (ObjectData3d { clearcoat_roughness: b.clearcoat_roughness, ..a })
        &&& changed(a.clearcoat_roughness, b.clearcoat_roughness)
    }
    ||| {
        &&& b == (ObjectData3d {
            attenuation_color: Color { r: b.attenuation_color.r, ..a.attenuation_color },
            ..a
        })
        &&& changed(a.attenuation_color.r, b.attenuation_color.r)
    }
    ||| {
        &&& b == (ObjectData3d {
            attenuation_color: Color { g: b.attenuation_color.g, ..a.attenuation_color },
            ..a
        })
        &&& changed(a.attenuation_color.g, b.attenuation_color.g)
    }
    ||| {
        &&& b == (ObjectData3d {
            attenuation_color: Color { b: b.attenuation_color.b, ..a.attenuation_color },
            ..a
        })
        &&& changed(a.attenuation_color.b, b.attenuation_color.b)
    }
    ||| {
        &&& b == (ObjectData3d { attenuation_distance: b.attenuation_distance, ..a })
        &&& changed(a.attenuation_distance, b.attenuation_distance)
    }
}

/// The two differ in exactly one of its texture or one of its maps.
pub open spec fn identity_differs(a: ObjectData3d, b: ObjectData3d) -> bool {
    ||| {
        &&& b == (ObjectData3d { texture: b.texture, ..a })
        &&& low_half(Some(a.texture)) != low_half(Some(b.texture))
    }
    ||| {
        &&& b == (ObjectData3d { normal_map: b.normal_map, ..a })
        &&& low_half(a.normal_map) != low_half(b.normal_map)
    }
    ||| {
        &&& b == (ObjectData3d { metallic_roughness_map: b.metallic_roughness_map, ..a })
        &&& low_half(a.metallic_roughness_map) != low_half(b.metallic_roughness_map)
    }
    ||| {
        &&& b == (ObjectData3d { emissive_map: b.emissive_map, ..a })
        &&& low_half(a.emissive_map) != low_half(b.emissive_map)
    }
}

proof fn lemma_appearance(a: ObjectData3d, b: ObjectData3d) -> (j: int)
    requires
        appearance_differs(a, b),
    ensures
        ({
            let x = appearance_words(a);
            let y = appearance_words(b);
            one_word_differs(x, y, j)
        }),
{
    let x = appearance_words(a);
    let y = appearance_words(b);
    if b == (ObjectData3d { metallic: b.metallic, ..a }) && changed(a.metallic, b.metallic) {
        lemma_changed_number(a.metallic, b.metallic);
        assert(y =~= x.update(0, y[0]));
        0
    } else if b == (ObjectData3d {
        roughness: b.roughness,
        ..a
    }) && changed(a.roughness, b.roughness) {
        lemma_changed_number(a.roughness, b.roughness);
        assert(y =~= x.update(1, y[1]));
        1
    } else if b == (ObjectData3d {
        color: Color { r: b.color.r, ..a.color },
        ..a
    }) && changed(a.color.r, b.color.r) {
        lemma_changed_number(a.color.r, b.color.r);
        assert(y =~= x.update(2, y[2]));
        2
    } else if b == (ObjectData3d {
        color: Color { g: b.color.g, ..a.color },
        ..a
    }) && changed(a.color.g, b.color.g) {
        lemma_changed_number(a.color.g, b.color.g);
        assert(y =~= x.update(3, y[3]));
        3
    } else if b == (ObjectData3d {
        color: Color { b: b.color.b, ..a.color },
        ..a
    }) && changed(a.color.b, b.color.b) {
        lemma_changed_number(a.color.b, b.color.b);
        assert(y =~= x.update(4, y[4]));
        4
    } else if b == (ObjectData3d {
        color: Color { a: b.color.a, ..a.color },
        ..a
    }) && changed(a.color.a, b.color.a) {
        lemma_changed_number(a.color.a, b.color.a);
        assert(y =~= x.update(5, y[5]));
        5
    } else if b == (ObjectData3d {
        emissive: Color { r: b.emissive.r, ..a.emissive },
        ..a
    }) && changed(a.emissive.r, b.emissive.r) {
        lemma_changed_number(a.emissive.r, b.emissive.r);
        assert(y =~= x.update(6, y[6]));
        6
    } else if b == (ObjectData3d {
        emissive: Color { g: b.emissive.g, ..a.emissive },
        ..a
    }) && changed(a.emissive.g, b.emissive.g) {
        lemma_changed_number(a.emissive.g, b.emissive.g);
        assert(y =~= x.update(7, y[7]));
        7
    } else if b == (ObjectData3d {
        emissive: Color { b: b.emissive.b, ..a.emissive },
        ..a
    }) && changed(a.emissive.b, b.emissive.b) {
        lemma_changed_number(a.emissive.b, b.emissive.b);
        assert(y =~= x.update(8, y[8]));
        8
    } else {
        0
    }
}

proof fn lemma_surface(a: ObjectData3d, b: ObjectData3d) -> (j: int)
    requires
        surface_differs(a, b),
    ensures
        ({
            let x = surface_words(a);
            let y = surface_words(b);
            one_word_differs(x, y, j)
        }),
{
    let x = surface_words(a);
    let y = surface_words(b);
    if b == (ObjectData3d { bsdf_tag: b.bsdf_tag, ..a }) && a.bsdf_tag != b.bsdf_tag {
        assert(y =~= x.update(0, y[0]));
        0
    } else if b == (ObjectData3d { ior: b.ior, ..a }) && changed(a.ior, b.ior) {
        lemma_changed_number(a.ior, b.ior);
        assert(y =~= x.update(1, y[1]));
        1
    } else if b == (ObjectData3d {
        transmission: b.transmission,
        ..a
    }) && changed(a.transmission, b.transmission) {
        lemma_changed_number(a.transmission, b.transmission);
        assert(y =~= x.update(2, y[2]));
        2
    } else if b == (ObjectData3d {
        specular_tint: Color { r: b.specular_tint.r, ..a.specular_tint },
        ..a
    }) && changed(a.specular_tint.r, b.specular_tint.r) {
        lemma_changed_number(a.specular_tint.r, b.specular_tint.r);
        assert(y =~= x.update(3, y[3]));
        3
    } else if b == (ObjectData3d {
        specular_tint: Color { g: b.specular_tint.g, ..a.specular_tint },
        ..a
    }) && changed(a.specular_tint.g, b.specular_tint.g) {
        lemma_changed_number(a.specular_tint.g, b.specular_tint.g);
        assert(y =~= x.update(4, y[4]));
        4
    } else if b == (ObjectData3d {
        specular_tint: Color { b: b.specular_tint.b, ..a.specular_tint },
        ..a
    }) && changed(a.specular_tint.b, b.specular_tint.b) {
        lemma_changed_number(a.specular_tint.b, b.specular_tint.b);
        assert(y =~= x.update(5, y[5]));
        5
    } else if b == (ObjectData3d {
        subsurface: b.subsurface,
        ..a
    }) && changed(a.subsurface, b.subsurface) {
        lemma_changed_number(a.subsurface, b.subsurface);
        assert(y =~= x.update(6, y[6]));
        6
    } else if b == (ObjectData3d {
        subsurface_radius: b.subsurface_radius,
        ..a
    }) && changed(a.subsurface_radius, b.subsurface_radius) {
        lemma_changed_number(a.subsurface_radius, b.subsurface_radius);
        assert(y =~= x.update(7, y[7]));
        7
    } else if b == (ObjectData3d {
        reflectance: b.reflectance,
        ..a
    }) && changed(a.reflectance, b.reflectance) {
        lemma_changed_number(a.reflectance, b.reflectance);
        assert(y =~= x.update(8, y[8]));
        8
    } else if b == (ObjectData3d {
        light_layers: b.light_layers,
        ..a
    }) && a.light_layers != b.light_layers {
        assert(y =~= x.update(9, y[9]));
        9
    } else {
        0
    }
}

proof fn lemma_layer(a: ObjectData3d, b: ObjectData3d) -> (j: int)
    requires
        layer_differs(a, b),
    ensures
        ({
            let x = layer_words(a);
            let y = layer_words(b);
            one_word_differs(x, y, j)
        }),
{
    let x = layer_words(a);
    let y = layer_words(b);
    if b == (ObjectData3d {
        casts_shadows: b.casts_shadows,
        ..a
    }) && a.casts_shadows != b.casts_shadows {
        assert(y =~= x.update(0, y[0]));
        0
    } else if b == (ObjectData3d {
        clearcoat: b.clearcoat,
        ..a
    }) && changed(a.clearcoat, b.clearcoat) {
        lemma_changed_number(a.clearcoat, b.clearcoat);
        assert(y =~= x.update(1, y[1]));
        1
    } else if b == (ObjectData3d {
        clearcoat_roughness: b.clearcoat_roughness,
        ..a
    }) && changed(a.clearcoat_roughness, b.clearcoat_roughness) {
        lemma_changed_number(a.clearcoat_roughness, b.clearcoat_roughness);
        assert(y =~= x.update(2, y[2]));
        2
    } else if b == (ObjectData3d {
        attenuation_color: Color { r: b.attenuation_color.r, ..a.attenuation_color },
        ..a
    }) && changed(a.attenuation_color.r, b.attenuation_color.r) {
        lemma_changed_number(a.attenuation_color.r, b.attenuation_color.r);
        assert(y =~= x.update(3, y[3]));
        3
    } else if b == (ObjectData3d {
        attenuation_color: Color { g: b.attenuation_color.g, ..a.attenuation_color },
        ..a
    }) && changed(a.attenuation_color.g, b.attenuation_color.g) {
        lemma_changed_number(a.attenuation_color.g, b.attenuation_color.g);
        assert(y =~= x.update(4, y[4]));
        4
    } else if b == (ObjectData3d {
        attenuation_color: Color { b: b.attenuation_color.b, ..a.attenuation_color },
        ..a
    }) && changed(a.attenuation_color.b, b.attenuation_color.b) {
        lemma_changed_number(a.attenuation_color.b, b.attenuation_color.b);
        assert(y =~= x.update(5, y[5]));
        5
    } else if b == (ObjectData3d {
        attenuation_distance: b.attenuation_distance,
        ..a
    }) && changed(a.attenuation_distance, b.attenuation_distance) {
        lemma_changed_number(a.attenuation_distance, b.attenuation_distance);
        assert(y =~= x.update(6, y[6]));
        6
    } else {
        0
    }
}

proof fn lemma_identity(a: ObjectData3d, b: ObjectData3d, nc: nat, nf: nat) -> (j: int)
    requires
        identity_differs(a, b),
    ensures
        ({
            let x = identity_words(a, nc, nf);
            let y = identity_words(b, nc, nf);
            one_word_differs(x, y, j)
        }),
{
    let x = identity_words(a, nc, nf);
    let y = identity_words(b, nc, nf);
    if b == (ObjectData3d {
        texture: b.texture,
        ..a
    }) && low_half(Some(a.texture)) != low_half(Some(b.texture)) {
        lemma_low_half(Some(a.texture));
        lemma_low_half(Some(b.texture));
        assert(y =~= x.update(0, y[0]));
        0
    } else if b == (ObjectData3d {
        normal_map: b.normal_map,
        ..a
    }) && low_half(a.normal_map) != low_half(b.normal_map) {
        lemma_low_half(a.normal_map);
        lemma_low_half(b.normal_map);
        assert(y =~= x.update(1, y[1]));
        1
    } else if b == (ObjectData3d {
        metallic_roughness_map: b.metallic_roughness_map,
        ..a
    }) && low_half(a.metallic_roughness_map) != low_half(b.metallic_roughness_map) {
        lemma_low_half(a.metallic_roughness_map);
        lemma_low_half(b.metallic_roughness_map);
        assert(y =~= x.update(2, y[2]));
        2
    } else if b == (ObjectData3d {
        emissive_map: b.emissive_map,
        ..a
    }) && low_half(a.emissive_map) != low_half(b.emissive_map) {
        lemma_low_half(a.emissive_map);
        lemma_low_half(b.emissive_map);
        assert(y =~= x.update(3, y[3]));
        3
    } else {
        0
    }
}

/// The words of a traced node, part by part.
#[verifier::opaque]
spec fn node_parts(node: SceneNode3d) -> Seq<Seq<u32>> {
    let object = node.object->0;
    seq![
        appearance_words(object.data),
        surface_words(object.data),
        layer_words(object.data),
        identity_words(object.data, object.coords().len(), object.faces().len()),
        instances_words(object.instances),
        skin_words(object.data),
        morph_words(object.data),
    ]
}

proof fn lemma_nothing_before(x: Seq<u32>)
    ensures
        Seq::<u32>::empty() + x == x,
{
    assert(Seq::<u32>::empty() + x =~= x);
}

/// Joining one part more.
proof fn lemma_join_next(parts: Seq<Seq<u32>>, n: int)
    requires
        0 <= n < parts.len(),
    ensures
        joined(parts.take(n + 1)) == joined(parts.take(n)) + parts[n],
        joined(parts.take(0)) == Seq::<u32>::empty(),
{
    assert(parts.take(n + 1).drop_last() =~= parts.take(n));
    assert(parts.take(0) =~= Seq::empty());
}

/// What a node contributes to the geometry hash.
#[verifier::opaque]
spec fn hashed(node: SceneNode3d) -> Seq<u32> {
    node_geometry_words(node)
}

#[verifier::rlimit(60)]
#[verifier::spinoff_prover]
proof fn lemma_node_words(node: SceneNode3d)
    ensures
        joined(node_parts(node)) == hashed(node),
{
    reveal(hashed);
    let parts = node_parts(node);
    reveal(node_parts);
    lemma_join_next(parts, 0);
    lemma_join_next(parts, 1);
    lemma_join_next(parts, 2);
    lemma_join_next(parts, 3);
    lemma_join_next(parts, 4);
    lemma_join_next(parts, 5);
    lemma_join_next(parts, 6);
    lemma_nothing_before(parts[0]);
    assert(parts.take(7) =~= parts);
}

proof fn lemma_part_count(node: SceneNode3d)
    ensures
        node_parts(node).len() == 7,
{
    reveal(node_parts);
}

/// The geometry hash changes where node `i` changes to `after`.
#[verifier::opaque]
spec fn noticed(
    nodes: Seq<SceneNode3d>,
    lights: LightCollection,
    render_layers: u32,
    i: int,
    after: SceneNode3d,
) -> bool {
    geometry_hash(nodes.update(i, after), lights, render_layers) != geometry_hash(
        nodes,
        lights,
        render_layers,
    )
}

/// Where one part changes in one word, so does the whole.
proof fn lemma_joined_change(
    x: Seq<Seq<u32>>,
    y: Seq<Seq<u32>>,
    part: int,
    j: int,
) -> (k: int)
    requires
        0 <= part < x.len(),
        y == x.update(part, y[part]),
        one_word_differs(x[part], y[part], j),
    ensures
        one_word_differs(joined(x), joined(y), k),
{
    lemma_changed_part(x, part, y[part], j)
}

/// A node with one part changed in one word is noticed.
proof fn lemma_changed_node_part(
    nodes: Seq<SceneNode3d>,
    lights: LightCollection,
    render_layers: u32,
    i: int,
    after: SceneNode3d,
    part: int,
    j: int,
)
    requires
        0 <= i < nodes.len(),
        nodes[i].traced(render_layers),
        after.traced(render_layers),
        0 <= part < 7,
        node_parts(after) == node_parts(nodes[i]).update(part, node_parts(after)[part]),
        one_word_differs(node_parts(nodes[i])[part], node_parts(after)[part], j),
    ensures
        noticed(nodes, lights, render_layers, i, after),
{
    lemma_part_count(nodes[i]);
    let k = lemma_joined_change(node_parts(nodes[i]), node_parts(after), part, j);
    lemma_node_words(nodes[i]);
    lemma_node_words(after);
    lemma_changed_words(
        nodes,
        lights,
        render_layers,
        i,
        after,
        joined(node_parts(nodes[i])),
        joined(node_parts(after)),
        k,
    );
}

#[verifier::rlimit(60)]
#[verifier::spinoff_prover]
proof fn lemma_changed_words(
    nodes: Seq<SceneNode3d>,
    lights: LightCollection,
    render_layers: u32,
    i: int,
    after: SceneNode3d,
    x: Seq<u32>,
    y: Seq<u32>,
    k: int,
)
    requires
        0 <= i < nodes.len(),
        nodes[i].traced(render_layers),
        after.traced(render_layers),
        x == hashed(nodes[i]),
        y == hashed(after),
        one_word_differs(x, y, k),
    ensures
        noticed(nodes, lights, render_layers, i, after),
{
    reveal(noticed);
    reveal(hashed);
    law_changed_property_is_detected(nodes, lights, render_layers, i, after, k);
}

/// The parts of a node, one by one.
proof fn lemma_part(node: SceneNode3d)
    ensures
        ({
            let parts = node_parts(node);
            let object = node.object->0;
            &&& parts.len() == 7
            &&& parts[0] == appearance_words(object.data)
            &&& parts[1] == surface_words(object.data)
            &&& parts[2] == layer_words(object.data)
            &&& parts[3] == identity_words(
                object.data,
                object.coords().len(),
                object.faces().len(),
            )
            &&& parts[4] == instances_words(object.instances)
            &&& parts[5] == skin_words(object.data)
            &&& parts[6] == morph_words(object.data)
        }),
{
    reveal(node_parts);
}

/// Parts that are equal but for one are an update of one another.
#[verifier::rlimit(60)]
#[verifier::spinoff_prover]
proof fn lemma_parts_but_one(a: SceneNode3d, b: SceneNode3d, part: int)
    requires
        0 <= part < 7,
        ({
            let x = a.object->0;
            let y = b.object->0;
            let nc = x.coords().len();
            let nf = x.faces().len();
            &&& part != 0 ==> appearance_words(y.data) == appearance_words(x.data)
            &&& part != 1 ==> surface_words(y.data) == surface_words(x.data)
            &&& part != 2 ==> layer_words(y.data) == layer_words(x.data)
            &&& part != 3 ==> identity_words(y.data, y.coords().len(), y.faces().len())
                == identity_words(x.data, nc, nf)
            &&& part != 4 ==> instances_words(y.instances) == instances_words(x.instances)
            &&& part != 5 ==> skin_words(y.data) == skin_words(x.data)
            &&& part != 6 ==> morph_words(y.data) == morph_words(x.data)
        }),
    ensures
        node_parts(b) == node_parts(a).update(part, node_parts(b)[part]),
        node_parts(a)[0] == appearance_words(a.object->0.data),
        node_parts(b)[0] == appearance_words(b.object->0.data),
        node_parts(a)[1] == surface_words(a.object->0.data),
        node_parts(b)[1] == surface_words(b.object->0.data),
        node_parts(a)[2] == layer_words(a.object->0.data),
        node_parts(b)[2] == layer_words(b.object->0.data),
        node_parts(a)[3] == identity_words(
            a.object->0.data,
            a.object->0.coords().len(),
            a.object->0.faces().len(),
        ),
        node_parts(b)[3] == identity_words(
            b.object->0.data,
            b.object->0.coords().len(),
            b.object->0.faces().len(),
        ),
        node_parts(a)[4] == instances_words(a.object->0.instances),
        node_parts(b)[4] == instances_words(b.object->0.instances),
        node_parts(a)[5] == skin_words(a.object->0.data),
        node_parts(b)[5] == skin_words(b.object->0.data),
        node_parts(a)[6] == morph_words(a.object->0.data),
        node_parts(b)[6] == morph_words(b.object->0.data),
{
    lemma_part(a);
    lemma_part(b);
    let x = node_parts(a);
    let y = node_parts(b);
    assert forall|k: int| 0 <= k < 7 && k != part implies x[k] == y[k] by {
        assert(k == 0 || k == 1 || k == 2 || k == 3 || k == 4 || k == 5 || k == 6);
    }
    assert(y =~= x.update(part, y[part]));
}

proof fn lemma_appearance_alone(a: ObjectData3d, b: ObjectData3d, nc: nat, nf: nat)
    requires
        appearance_differs(a, b),
    ensures
        surface_words(b) == surface_words(a),
        layer_words(b) == layer_words(a),
        identity_words(b, nc, nf) == identity_words(a, nc, nf),
        skin_words(b) == skin_words(a),
        morph_words(b) == morph_words(a),
{
    assert(b == (ObjectData3d {
        metallic: b.metallic,
        roughness: b.roughness,
        color: b.color,
        emissive: b.emissive,
        ..a
    }));
}

proof fn lemma_surface_alone(a: ObjectData3d, b: ObjectData3d, nc: nat, nf: nat)
    requires
        surface_differs(a, b),
    ensures
        appearance_words(b) == appearance_words(a),
        layer_words(b) == layer_words(a),
        identity_words(b, nc, nf) == identity_words(a, nc, nf),
        skin_words(b) == skin_words(a),
        morph_words(b) == morph_words(a),
{
    assert(b == (ObjectData3d {
        bsdf_tag: b.bsdf_tag,
        ior: b.ior,
        transmission: b.transmission,
        specular_tint: b.specular_tint,
        subsurface: b.subsurface,
        subsurface_radius: b.subsurface_radius,
        reflectance: b.reflectance,
        light_layers: b.light_layers,
        ..a
    }));
}

proof fn lemma_layer_alone(a: ObjectData3d, b: ObjectData3d, nc: nat, nf: nat)
    requires
        layer_differs(a, b),
    ensures
        appearance_words(b) == appearance_words(a),
        surface_words(b) == surface_words(a),
        identity_words(b, nc, nf) == identity_words(a, nc, nf),
        skin_words(b) == skin_words(a),
        morph_words(b) == morph_words(a),
{
    assert(b == (ObjectData3d {
        casts_shadows: b.casts_shadows,
        clearcoat: b.clearcoat,
        clearcoat_roughness: b.clearcoat_roughness,
        attenuation_color: b.attenuation_color,
        attenuation_distance: b.attenuation_distance,
        ..a
    }));
}

proof fn lemma_identity_alone(a: ObjectData3d, b: ObjectData3d, nc: nat, nf: nat)
    requires
        identity_differs(a, b),
    ensures
        appearance_words(b) == appearance_words(a),
        surface_words(b) == surface_words(a),
        layer_words(b) == layer_words(a),
        skin_words(b) == skin_words(a),
        morph_words(b) == morph_words(a),
{
    assert(b == (ObjectData3d {
        texture: b.texture,
        normal_map: b.normal_map,
        metallic_roughness_map: b.metallic_roughness_map,
        emissive_map: b.emissive_map,
        ..a
    }));
}

proof fn lemma_noticed_appearance(
    nodes: Seq<SceneNode3d>,
    lights: LightCollection,
    render_layers: u32,
    i: int,
    after: SceneNode3d,
)
    requires
        0 <= i < nodes.len(),
        nodes[i].traced(render_layers),
        after.traced(render_layers),
        after.object->0 == (Object3d { data: after.object->0.data, ..nodes[i].object->0 }),
        appearance_differs(nodes[i].object->0.data, after.object->0.data),
    ensures
        noticed(nodes, lights, render_layers, i, after),
{
    let x = nodes[i].object->0;
    let y = after.object->0;
    let nc = x.coords().len();
    let nf = x.faces().len();
    let j = lemma_appearance(x.data, y.data);
    lemma_appearance_alone(x.data, y.data, nc, nf);
    lemma_parts_but_one(nodes[i], after, 0);
    lemma_changed_node_part(nodes, lights, render_layers, i, after, 0, j);
}

proof fn lemma_noticed_surface(
    nodes: Seq<SceneNode3d>,
    lights: LightCollection,
    render_layers: u32,
    i: int,
    after: SceneNode3d,
)
    requires
        0 <= i < nodes.len(),
        nodes[i].traced(render_layers),
        after.traced(render_layers),
        after.object->0 == (Object3d { data: after.object->0.data, ..nodes[i].object->0 }),
        surface_differs(nodes[i].object->0.data, after.object->0.data),
    ensures
        noticed(nodes, lights, render_layers, i, after),
{
    let x = nodes[i].object->0;
    let y = after.object->0;
    let nc = x.coords().len();
    let nf = x.faces().len();
    let j = lemma_surface(x.data, y.data);
    lemma_surface_alone(x.data, y.data, nc, nf);
    lemma_parts_but_one(nodes[i], after, 1);
    lemma_changed_node_part(nodes, lights, render_layers, i, after, 1, j);
}

proof fn lemma_noticed_layer(
    nodes: Seq<SceneNode3d>,
    lights: LightCollection,
    render_layers: u32,
    i: int,
    after: SceneNode3d,
)
    requires
        0 <= i < nodes.len(),
        nodes[i].traced(render_layers),
        after.traced(render_layers),
        after.object->0 == (Object3d { data: after.object->0.data, ..nodes[i].object->0 }),
        layer_differs(nodes[i].object->0.data, after.object->0.data),
    ensures
        noticed(nodes, lights, render_layers, i, after),
{
    let x = nodes[i].object->0;
    let y = after.object->0;
    let nc = x.coords().len();
    let nf = x.faces().len();
    let j = lemma_layer(x.data, y.data);
    lemma_layer_alone(x.data, y.data, nc, nf);
    lemma_parts_but_one(nodes[i], after, 2);
    lemma_changed_node_part(nodes, lights, render_layers, i, after, 2, j);
}

proof fn lemma_noticed_identity(
    nodes: Seq<SceneNode3d>,
    lights: LightCollection,
    render_layers: u32,
    i: int,
    after: SceneNode3d,
)
    requires
        0 <= i < nodes.len(),
        nodes[i].traced(render_layers),
        after.traced(render_layers),
        after.object->0 == (Object3d { data: after.object->0.data, ..nodes[i].object->0 }),
        identity_differs(nodes[i].object->0.data, after.object->0.data),
    ensures
        noticed(nodes, lights, render_layers, i, after),
{
    let x = nodes[i].object->0;
    let y = after.object->0;
    let nc = x.coords().len();
    let nf = x.faces().len();
    let j = lemma_identity(x.data, y.data, nc, nf);
    lemma_identity_alone(x.data, y.data, nc, nf);
    lemma_parts_but_one(nodes[i], after, 3);
    lemma_changed_node_part(nodes, lights, render_layers, i, after, 3, j);
}

/// A change of any one property of a traced object's appearance, of its surface, of its
/// shadow flag, of its layers and absorption, or of its textures is noticed: the geometry
/// hash changes.
#[verifier::rlimit(60)]
#[verifier::spinoff_prover]
pub proof fn law_changed_appearance_is_noticed(
    nodes: Seq<SceneNode3d>,
    lights: LightCollection,
    render_layers: u32,
    i: int,
    after: SceneNode3d,
)
    requires
        0 <= i < nodes.len(),
        nodes[i].traced(render_layers),
        after.traced(render_layers),
        after.object->0 == (Object3d { data: after.object->0.data, ..nodes[i].object->0 }),
        ({
            let a = nodes[i].object->0.data;
            let b = after.object->0.data;
            ||| appearance_differs(a, b)
            ||| surface_differs(a, b)
            ||| layer_differs(a, b)
            ||| identity_differs(a, b)
        }),
    ensures
        geometry_hash(nodes.update(i, after), lights, render_layers) != geometry_hash(
            nodes,
            lights,
            render_layers,
        ),
{
    let a = nodes[i].object->0.data;
    let b = after.object->0.data;
    if appearance_differs(a, b) {
        lemma_noticed_appearance(nodes, lights, render_layers, i, after);
    } else if surface_differs(a, b) {
        lemma_noticed_surface(nodes, lights, render_layers, i, after);
    } else if layer_differs(a, b) {
        lemma_noticed_layer(nodes, lights, render_layers, i, after);
    } else {
        lemma_noticed_identity(nodes, lights, render_layers, i, after);
    }
    reveal(noticed);
}

/// A mesh with another number of vertices, or of faces, is noticed.
#[verifier::rlimit(60)]
#[verifier::spinoff_prover]
pub proof fn law_changed_element_count_is_noticed(
    nodes: Seq<SceneNode3d>,
    lights: LightCollection,
    render_layers: u32,
    i: int,
    after: SceneNode3d,
)
    requires
        0 <= i < nodes.len(),
        nodes[i].traced(render_layers),
        after.traced(render_layers),
        after.object->0.data == nodes[i].object->0.data,
        after.object->0.instances == nodes[i].object->0.instances,
        ({
            let a = nodes[i].object->0.mesh;
            let b = after.object->0.mesh;
            let nc = a.coords->0@.len();
            let mc = b.coords->0@.len();
            let nf = a.faces->0@.len();
            let mf = b.faces->0@.len();
            &&& nc <= u32::MAX && mc <= u32::MAX && nf <= u32::MAX && mf <= u32::MAX
            &&& (nc != mc && nf == mf) || (nc == mc && nf != mf)
        }),
    ensures
        geometry_hash(nodes.update(i, after), lights, render_layers) != geometry_hash(
            nodes,
            lights,
            render_layers,
        ),
{
    let a = nodes[i].object->0;
    let b = after.object->0;
    let x = identity_words(a.data, a.coords().len(), a.faces().len());
    let y = identity_words(b.data, b.coords().len(), b.faces().len());
    let j = if nodes[i].object->0.coords().len() != after.object->0.coords().len() {
        4int
    } else {
        5int
    };
    assert(y =~= x.update(j, y[j]));
    lemma_parts_but_one(nodes[i], after, 3);
    lemma_changed_node_part(nodes, lights, render_layers, i, after, 3, j);
    reveal(noticed);
}

/// Another number of copies is noticed.
pub proof fn law_changed_copy_count_is_noticed(
    nodes: Seq<SceneNode3d>,
    lights: LightCollection,
    render_layers: u32,
    i: int,
    after: SceneNode3d,
)
    requires
        0 <= i < nodes.len(),
        nodes[i].traced(render_layers),
        after.traced(render_layers),
        after.object->0.data == nodes[i].object->0.data,
        after.object->0.mesh == nodes[i].object->0.mesh,
        after.object->0.instances.colors == nodes[i].object->0.instances.colors,
        after.object->0.instances.count <= u32::MAX,
        nodes[i].object->0.instances.count <= u32::MAX,
        after.object->0.instances.count != nodes[i].object->0.instances.count,
    ensures
        geometry_hash(nodes.update(i, after), lights, render_layers) != geometry_hash(
            nodes,
            lights,
            render_layers,
        ),
{
    let x = instances_words(nodes[i].object->0.instances);
    let y = instances_words(after.object->0.instances);
    assert(y =~= x.update(0, y[0]));
    lemma_parts_but_one(nodes[i], after, 4);
    lemma_changed_node_part(nodes, lights, render_layers, i, after, 4, 0);
    reveal(noticed);
}

proof fn lemma_colors_joined(colors: Seq<[F32; 4]>)
    ensures
        joined(colors.map_values(|c: [F32; 4]| four_words(c))) == colors_words(colors),
    decreases colors.len(),
{
    let parts = colors.map_values(|c: [F32; 4]| four_words(c));
    if colors.len() > 0 {
        lemma_colors_joined(colors.drop_last());
        assert(parts.drop_last() =~= colors.drop_last().map_values(|c: [F32; 4]| four_words(c)));
    }
}

proof fn lemma_matrices_joined(ms: Seq<Mat4>)
    ensures
        joined(ms.map_values(|m: Mat4| matrix_words(m))) == matrices_words(ms),
    decreases ms.len(),
{
    let parts = ms.map_values(|m: Mat4| matrix_words(m));
    if ms.len() > 0 {
        lemma_matrices_joined(ms.drop_last());
        assert(parts.drop_last() =~= ms.drop_last().map_values(|m: Mat4| matrix_words(m)));
    }
}

proof fn lemma_vectors_joined(vs: Seq<Vec3>)
    ensures
        joined(vs.map_values(|v: Vec3| vec3_words(v))) == vectors_words(vs),
    decreases vs.len(),
{
    let parts = vs.map_values(|v: Vec3| vec3_words(v));
    if vs.len() > 0 {
        lemma_vectors_joined(vs.drop_last());
        assert(parts.drop_last() =~= vs.drop_last().map_values(|v: Vec3| vec3_words(v)));
    }
}

/// The two colors differ in component `c` alone.
pub open spec fn component_changed(a: [F32; 4], b: [F32; 4], c: int) -> bool {
    &&& 0 <= c < 4
    &&& b@ == a@.update(c, b@[c])
    &&& changed(a@[c], b@[c])
}

proof fn lemma_four_words(a: [F32; 4], b: [F32; 4], c: int)
    requires
        component_changed(a, b, c),
    ensures
        one_word_differs(four_words(a), four_words(b), c),
{
    lemma_changed_number(a@[c], b@[c]);
    let x = four_words(a);
    let y = four_words(b);
    assert forall|k: int| 0 <= k < 4 && k != c implies a@[k] == b@[k] by {}
    assert(x[0] == number_word(a@[0]) && y[0] == number_word(b@[0]));
    assert(x[1] == number_word(a@[1]) && y[1] == number_word(b@[1]));
    assert(x[2] == number_word(a@[2]) && y[2] == number_word(b@[2]));
    assert(x[3] == number_word(a@[3]) && y[3] == number_word(b@[3]));
    assert(y =~= x.update(c, y[c]));
}

/// A copy whose color changes in one component is noticed.
#[verifier::rlimit(60)]
#[verifier::spinoff_prover]
pub proof fn law_changed_copy_color_is_noticed(
    nodes: Seq<SceneNode3d>,
    lights: LightCollection,
    render_layers: u32,
    i: int,
    after: SceneNode3d,
    k: int,
    c: int,
)
    requires
        0 <= i < nodes.len(),
        nodes[i].traced(render_layers),
        after.traced(render_layers),
        after.object->0.data == nodes[i].object->0.data,
        after.object->0.mesh == nodes[i].object->0.mesh,
        after.object->0.instances.count == nodes[i].object->0.instances.count,
        nodes[i].object->0.instances.colors is Some,
        after.object->0.instances.colors is Some,
        ({
            let a = nodes[i].object->0.instances.colors->0@;
            let b = after.object->0.instances.colors->0@;
            &&& 0 <= k < a.len()
            &&& b == a.update(k, b[k])
            &&& component_changed(a[k], b[k], c)
        }),
    ensures
        geometry_hash(nodes.update(i, after), lights, render_layers) != geometry_hash(
            nodes,
            lights,
            render_layers,
        ),
{
    let a = nodes[i].object->0.instances;
    let b = after.object->0.instances;
    let at = lemma_color_list(a.colors->0@, b.colors->0@, k, c);
    lemma_after_the_first(
        a.count as u32,
        colors_words(a.colors->0@),
        colors_words(b.colors->0@),
        at,
    );
    lemma_parts_but_one(nodes[i], after, 4);
    lemma_changed_node_part(nodes, lights, render_layers, i, after, 4, at + 1);
    reveal(noticed);
}

proof fn lemma_after_the_first(first: u32, x: Seq<u32>, y: Seq<u32>, at: int)
    requires
        one_word_differs(x, y, at),
    ensures
        one_word_differs(seq![first] + x, seq![first] + y, at + 1),
{
    let p = seq![first] + x;
    let q = seq![first] + y;
    assert(q =~= p.update(at + 1, q[at + 1]));
}

proof fn lemma_color_list(a: Seq<[F32; 4]>, b: Seq<[F32; 4]>, k: int, c: int) -> (at: int)
    requires
        0 <= k < a.len(),
        b == a.update(k, b[k]),
        component_changed(a[k], b[k], c),
    ensures
        one_word_differs(colors_words(a), colors_words(b), at),
{
    let f = |c: [F32; 4]| four_words(c);
    lemma_four_words(a[k], b[k], c);
    lemma_colors_joined(a);
    lemma_colors_joined(b);
    assert(b.map_values(f) =~= a.map_values(f).update(k, four_words(b[k])));
    lemma_changed_part(a.map_values(f), k, four_words(b[k]), c)
}

/// The words of a matrix, column by column.
#[verifier::opaque]
spec fn column_parts(m: Mat4) -> Seq<Seq<u32>> {
    Seq::new(4, |c: int| four_words(m@[c]))
}

proof fn lemma_columns_joined(m: Mat4)
    ensures
        joined(column_parts(m)) == matrix_words(m),
        column_parts(m).len() == 4,
        forall|c: int| 0 <= c < 4 ==> #[trigger] column_parts(m)[c] == four_words(m@[c]),
{
    reveal(column_parts);
    let parts = column_parts(m);
    lemma_join_next(parts, 0);
    lemma_join_next(parts, 1);
    lemma_join_next(parts, 2);
    lemma_join_next(parts, 3);
    lemma_nothing_before(parts[0]);
    assert(parts.take(4) =~= parts);
    assert(parts[0] == four_words(m[0]) && parts[1] == four_words(m[1]));
    assert(parts[2] == four_words(m[2]) && parts[3] == four_words(m[3]));
}

proof fn lemma_matrix_words(a: Mat4, b: Mat4, column: int, row: int) -> (at: int)
    requires
        0 <= column < 4,
        b@ == a@.update(column, b@[column]),
        component_changed(a@[column], b@[column], row),
    ensures
        one_word_differs(matrix_words(a), matrix_words(b), at),
{
    lemma_four_words(a@[column], b@[column], row);
    lemma_columns_joined(a);
    lemma_columns_joined(b);
    let x = column_parts(a);
    let y = column_parts(b);
    assert forall|c: int| 0 <= c < 4 && c != column implies x[c] == y[c] by {
        assert(a@[c] == b@[c]);
    }
    assert(y =~= x.update(column, y[column]));
    lemma_changed_part(x, column, y[column], row)
}

proof fn lemma_palette(a: Seq<Mat4>, b: Seq<Mat4>, joint: int, column: int, row: int) -> (at: int)
    requires
        0 <= joint < a.len(),
        b == a.update(joint, b[joint]),
        0 <= column < 4,
        b[joint]@ == a[joint]@.update(column, b[joint]@[column]),
        component_changed(a[joint]@[column], b[joint]@[column], row),
    ensures
        one_word_differs(matrices_words(a), matrices_words(b), at),
{
    let f = |m: Mat4| matrix_words(m);
    let j = lemma_matrix_words(a[joint], b[joint], column, row);
    lemma_matrices_joined(a);
    lemma_matrices_joined(b);
    let x = a.map_values(f);
    let y = b.map_values(f);
    assert forall|k: int| 0 <= k < x.len() && k != joint implies x[k] == y[k] by {
        assert(a[k] == b[k]);
    }
    lemma_updated(x, y, joint);
    assert(x[joint] == matrix_words(a[joint]) && y[joint] == matrix_words(b[joint]));
    lemma_changed_part(x, joint, y[joint], j)
}

proof fn lemma_updated(x: Seq<Seq<u32>>, y: Seq<Seq<u32>>, i: int)
    requires
        x.len() == y.len(),
        0 <= i < x.len(),
        forall|k: int| 0 <= k < x.len() && k != i ==> x[k] == y[k],
    ensures
        y == x.update(i, y[i]),
{
    assert(y =~= x.update(i, y[i]));
}

/// A joint whose matrix changes in one number is noticed.
#[verifier::rlimit(60)]
#[verifier::spinoff_prover]
pub proof fn law_changed_joint_is_noticed(
    nodes: Seq<SceneNode3d>,
    lights: LightCollection,
    render_layers: u32,
    i: int,
    after: SceneNode3d,
    joint: int,
    column: int,
    row: int,
)
    requires
        0 <= i < nodes.len(),
        nodes[i].traced(render_layers),
        after.traced(render_layers),
        after.object->0.data == (ObjectData3d {
            skin: after.object->0.data.skin,
            ..nodes[i].object->0.data
        }),
        after.object->0.mesh == nodes[i].object->0.mesh,
        after.object->0.instances == nodes[i].object->0.instances,
        nodes[i].object->0.data.skin is Some,
        after.object->0.data.skin is Some,
        ({
            let a = nodes[i].object->0.data.skin->0.palette@;
            let b = after.object->0.data.skin->0.palette@;
            &&& 0 <= joint < a.len()
            &&& b == a.update(joint, b[joint])
            &&& 0 <= column < 4
            &&& b[joint]@ == a[joint]@.update(column, b[joint]@[column])
            &&& component_changed(a[joint]@[column], b[joint]@[column], row)
        }),
    ensures
        geometry_hash(nodes.update(i, after), lights, render_layers) != geometry_hash(
            nodes,
            lights,
            render_layers,
        ),
{
    let at = lemma_palette(
        nodes[i].object->0.data.skin->0.palette@,
        after.object->0.data.skin->0.palette@,
        joint,
        column,
        row,
    );
    lemma_same_data_words(nodes[i], after);
    lemma_parts_but_one(nodes[i], after, 5);
    lemma_changed_node_part(nodes, lights, render_layers, i, after, 5, at);
    reveal(noticed);
}

/// Skin and weights are hashed in parts of their own.
proof fn lemma_same_data_words(a: SceneNode3d, b: SceneNode3d)
    requires
        b.object->0.data == (ObjectData3d {
            skin: b.object->0.data.skin,
            morph_weights: b.object->0.data.morph_weights,
            ..a.object->0.data
        }),
        b.object->0.mesh == a.object->0.mesh,
    ensures
        ({
            let x = a.object->0;
            let y = b.object->0;
            &&& appearance_words(y.data) == appearance_words(x.data)
            &&& surface_words(y.data) == surface_words(x.data)
            &&& layer_words(y.data) == layer_words(x.data)
            &&& identity_words(y.data, y.coords().len(), y.faces().len()) == identity_words(
                x.data,
                x.coords().len(),
                x.faces().len(),
            )
        }),
{
}

/// A morph weight that changes is noticed.
#[verifier::rlimit(60)]
#[verifier::spinoff_prover]
pub proof fn law_changed_weight_is_noticed(
    nodes: Seq<SceneNode3d>,
    lights: LightCollection,
    render_layers: u32,
    i: int,
    after: SceneNode3d,
    t: int,
)
    requires
        0 <= i < nodes.len(),
        nodes[i].traced(render_layers),
        after.traced(render_layers),
        after.object->0.data == (ObjectData3d {
            morph_weights: after.object->0.data.morph_weights,
            ..nodes[i].object->0.data
        }),
        after.object->0.mesh == nodes[i].object->0.mesh,
        after.object->0.instances == nodes[i].object->0.instances,
        ({
            let a = nodes[i].object->0.data.morph_weights@;
            let b = after.object->0.data.morph_weights@;
            &&& 0 <= t < a.len()
            &&& b == a.update(t, b[t])
            &&& changed(a[t], b[t])
        }),
    ensures
        geometry_hash(nodes.update(i, after), lights, render_layers) != geometry_hash(
            nodes,
            lights,
            render_layers,
        ),
{
    let a = nodes[i].object->0.data.morph_weights@;
    let b = after.object->0.data.morph_weights@;
    lemma_changed_number(a[t], b[t]);
    lemma_same_data_words(nodes[i], after);
    let x = morph_words(nodes[i].object->0.data);
    let y = morph_words(after.object->0.data);
    assert(x[t] == number_word(a[t]) && y[t] == number_word(b[t]));
    assert(y =~= x.update(t, y[t]));
    lemma_parts_but_one(nodes[i], after, 6);
    lemma_changed_node_part(nodes, lights, render_layers, i, after, 6, t);
    reveal(noticed);
}

/// The words of a node's motion, part by part.
spec fn motion_parts(node: SceneNode3d) -> Seq<Seq<u32>> {
    let instances = node.object->0.instances;
    seq![
        vec3_words(node.pose.translation),
        seq![
            number_word(node.pose.rotation.x),
            number_word(node.pose.rotation.y),
            number_word(node.pose.rotation.z),
            number_word(node.pose.rotation.w),
        ],
        vec3_words(node.scale),
        optional_vectors_words(instances.positions),
        optional_vectors_words(instances.deformations),
    ]
}

proof fn lemma_motion_words(node: SceneNode3d)
    ensures
        joined(motion_parts(node)) == node_transform_words(node),
{
    let parts = motion_parts(node);
    lemma_join_next(parts, 0);
    lemma_join_next(parts, 1);
    lemma_join_next(parts, 2);
    lemma_join_next(parts, 3);
    lemma_join_next(parts, 4);
    lemma_nothing_before(parts[0]);
    assert(parts.take(5) =~= parts);
}

proof fn lemma_changed_motion_part(
    nodes: Seq<SceneNode3d>,
    render_layers: u32,
    i: int,
    after: SceneNode3d,
    part: int,
    j: int,
)
    requires
        0 <= i < nodes.len(),
        nodes[i].traced(render_layers),
        after.traced(render_layers),
        0 <= part < 5,
        motion_parts(after) == motion_parts(nodes[i]).update(part, motion_parts(after)[part]),
        one_word_differs(motion_parts(nodes[i])[part], motion_parts(after)[part], j),
    ensures
        transform_hash(nodes.update(i, after), render_layers) != transform_hash(
            nodes,
            render_layers,
        ),
{
    lemma_motion_words(nodes[i]);
    lemma_motion_words(after);
    let k = lemma_changed_part(motion_parts(nodes[i]), part, motion_parts(after)[part], j);
    law_motion_is_detected(nodes, render_layers, i, after, k);
}

/// The two vectors differ in one component.
pub open spec fn vector_changed(a: Vec3, b: Vec3) -> bool {
    ||| (b == (Vec3 { x: b.x, ..a }) && changed(a.x, b.x))
    ||| (b == (Vec3 { y: b.y, ..a }) && changed(a.y, b.y))
    ||| (b == (Vec3 { z: b.z, ..a }) && changed(a.z, b.z))
}

proof fn lemma_vector_words(a: Vec3, b: Vec3) -> (j: int)
    requires
        vector_changed(a, b),
    ensures
        one_word_differs(vec3_words(a), vec3_words(b), j),
{
    let x = vec3_words(a);
    let y = vec3_words(b);
    if b == (Vec3 { x: b.x, ..a }) && changed(a.x, b.x) {
        lemma_changed_number(a.x, b.x);
        assert(y =~= x.update(0, y[0]));
        0
    } else if b == (Vec3 { y: b.y, ..a }) && changed(a.y, b.y) {
        lemma_changed_number(a.y, b.y);
        assert(y =~= x.update(1, y[1]));
        1
    } else {
        lemma_changed_number(a.z, b.z);
        assert(y =~= x.update(2, y[2]));
        2
    }
}

/// The two rotations differ in one component.
pub open spec fn rotation_changed(a: Quat, b: Quat) -> bool {
    ||| (b == (Quat { x: b.x, ..a }) && changed(a.x, b.x))
    ||| (b == (Quat { y: b.y, ..a }) && changed(a.y, b.y))
    ||| (b == (Quat { z: b.z, ..a }) && changed(a.z, b.z))
    ||| (b == (Quat { w: b.w, ..a }) && changed(a.w, b.w))
}

/// The two nodes differ in exactly one number of their pose or scale.
pub open spec fn pose_differs(a: SceneNode3d, b: SceneNode3d) -> bool {
    ||| {
        &&& b == (SceneNode3d {
            pose: Pose3 { translation: b.pose.translation, ..a.pose },
            ..a
        })
        &&& vector_changed(a.pose.translation, b.pose.translation)
    }
    ||| {
        &&& b == (SceneNode3d { pose: Pose3 { rotation: b.pose.rotation, ..a.pose }, ..a })
        &&& rotation_changed(a.pose.rotation, b.pose.rotation)
    }
    ||| {
        &&& b == (SceneNode3d { scale: b.scale, ..a })
        &&& vector_changed(a.scale, b.scale)
    }
}

/// A node that moves, turns or grows by one number is noticed: the transform hash changes.
pub proof fn law_moved_node_is_noticed(
    nodes: Seq<SceneNode3d>,
    render_layers: u32,
    i: int,
    after: SceneNode3d,
)
    requires
        0 <= i < nodes.len(),
        nodes[i].traced(render_layers),
        pose_differs(nodes[i], after),
    ensures
        transform_hash(nodes.update(i, after), render_layers) != transform_hash(
            nodes,
            render_layers,
        ),
{
    let a = nodes[i];
    let x = motion_parts(a);
    let y = motion_parts(after);
    if after == (SceneNode3d {
        pose: Pose3 { translation: after.pose.translation, ..a.pose },
        ..a
    }) && vector_changed(a.pose.translation, after.pose.translation) {
        let j = lemma_vector_words(a.pose.translation, after.pose.translation);
        assert(y =~= x.update(0, y[0]));
        lemma_changed_motion_part(nodes, render_layers, i, after, 0, j);
    } else if after == (SceneNode3d {
        pose: Pose3 { rotation: after.pose.rotation, ..a.pose },
        ..a
    }) && rotation_changed(a.pose.rotation, after.pose.rotation) {
        let p = a.pose.rotation;
        let q = after.pose.rotation;
        let j = if q == (Quat { x: q.x, ..p }) && changed(p.x, q.x) {
            lemma_changed_number(p.x, q.x);
            0int
        } else if q == (Quat { y: q.y, ..p }) && changed(p.y, q.y) {
            lemma_changed_number(p.y, q.y);
            1int
        } else if q == (Quat { z: q.z, ..p }) && changed(p.z, q.z) {
            lemma_changed_number(p.z, q.z);
            2int
        } else {
            lemma_changed_number(p.w, q.w);
            3int
        };
        assert(y[1] =~= x[1].update(j, y[1][j]));
        assert(y =~= x.update(1, y[1]));
        lemma_changed_motion_part(nodes, render_layers, i, after, 1, j);
    } else {
        let j = lemma_vector_words(a.scale, after.scale);
        assert(y =~= x.update(2, y[2]));
        lemma_changed_motion_part(nodes, render_layers, i, after, 2, j);
    }
}

/// The two lists of vectors differ in exactly one number.
pub open spec fn list_changed(a: Option<Vec<Vec3>>, b: Option<Vec<Vec3>>, k: int) -> bool {
    &&& a is Some
    &&& b is Some
    &&& 0 <= k < a->0@.len()
    &&& b->0@ == a->0@.update(k, b->0@[k])
    &&& vector_changed(a->0@[k], b->0@[k])
}

proof fn lemma_list_words(a: Option<Vec<Vec3>>, b: Option<Vec<Vec3>>, k: int) -> (j: int)
    requires
        list_changed(a, b, k),
    ensures
        one_word_differs(
            optional_vectors_words(a),
            optional_vectors_words(b),
            j,
        ),
{
    let x = a->0@;
    let y = b->0@;
    let f = |v: Vec3| vec3_words(v);
    let j = lemma_vector_words(x[k], y[k]);
    lemma_vectors_joined(x);
    lemma_vectors_joined(y);
    assert(y.map_values(f) =~= x.map_values(f).update(k, vec3_words(y[k])));
    lemma_changed_part(x.map_values(f), k, vec3_words(y[k]), j)
}

/// A copy that moves by one number of its offset, or deforms by one number, is noticed.
pub proof fn law_moved_copy_is_noticed(
    nodes: Seq<SceneNode3d>,
    render_layers: u32,
    i: int,
    after: SceneNode3d,
    k: int,
)
    requires
        0 <= i < nodes.len(),
        nodes[i].traced(render_layers),
        after.traced(render_layers),
        after.pose == nodes[i].pose,
        after.scale == nodes[i].scale,
        ({
            let a = nodes[i].object->0.instances;
            let b = after.object->0.instances;
            ||| (list_changed(a.positions, b.positions, k) && b.deformations == a.deformations)
            ||| (list_changed(a.deformations, b.deformations, k) && b.positions == a.positions)
        }),
    ensures
        transform_hash(nodes.update(i, after), render_layers) != transform_hash(
            nodes,
            render_layers,
        ),
{
    let a = nodes[i].object->0.instances;
    let b = after.object->0.instances;
    let x = motion_parts(nodes[i]);
    let y = motion_parts(after);
    if list_changed(a.positions, b.positions, k) && b.deformations == a.deformations {
        let j = lemma_list_words(a.positions, b.positions, k);
        assert(y =~= x.update(3, y[3]));
        lemma_changed_motion_part(nodes, render_layers, i, after, 3, j);
    } else {
        let j = lemma_list_words(a.deformations, b.deformations, k);
        assert(y =~= x.update(4, y[4]));
        lemma_changed_motion_part(nodes, render_layers, i, after, 4, j);
    }
}

/// The two lights differ in exactly one number, in their layers, or in whether they cast
/// shadows.
pub open spec fn light_differs(a: CollectedLight, b: CollectedLight) -> bool {
    ||| {
        &&& b == (CollectedLight { world_position: b.world_position, ..a })
        &&& vector_changed(a.world_position, b.world_position)
    }
    ||| {
        &&& b == (CollectedLight { world_direction: b.world_direction, ..a })
        &&& vector_changed(a.world_direction, b.world_direction)
    }
    ||| {
        &&& b == (CollectedLight { color: b.color, ..a })
        &&& vector_changed(a.color, b.color)
    }
    ||| {
        &&& b == (CollectedLight { intensity: b.intensity, ..a })
        &&& changed(a.intensity, b.intensity)
    }
    ||| {
        &&& b == (CollectedLight { radius: b.radius, ..a })
        &&& changed(a.radius, b.radius)
    }
    ||| {
        &&& b == (CollectedLight { layers: b.layers, ..a })
        &&& a.layers != b.layers
    }
    ||| {
        &&& b == (CollectedLight { casts_shadows: b.casts_shadows, ..a })
        &&& a.casts_shadows != b.casts_shadows
    }
    ||| {
        &&& b == (CollectedLight { light_type: b.light_type, ..a })
        &&& kind_differs(a.light_type, b.light_type)
    }
}

/// The two kinds of light differ in one number, or in nothing but the kind: a spot light
/// with the cosines of a point light, or a point light without end and a directional one.
pub open spec fn kind_differs(a: LightType, b: LightType) -> bool {
    match (a, b) {
        (
            LightType::Point { attenuation_radius: p },
            LightType::Point { attenuation_radius: q },
        ) => changed(p, q),
        (
            LightType::Spot { inner_cone_cos: i, outer_cone_cos: o, attenuation_radius: p },
            LightType::Spot { inner_cone_cos: j, outer_cone_cos: u, attenuation_radius: q },
        ) => {
            ||| (changed(p, q) && i == j && o == u)
            ||| (p == q && changed(i, j) && o == u)
            ||| (p == q && i == j && changed(o, u))
        },
        (
            LightType::Point { attenuation_radius: p },
            LightType::Spot { inner_cone_cos: j, outer_cone_cos: u, attenuation_radius: q },
        ) => p == q && j.bits == 0x3f80_0000 && u.bits == 0,
        (LightType::Point { attenuation_radius: p }, LightType::Directional) => p.bits == 0,
        _ => false,
    }
}

proof fn lemma_kind_words(a: LightType, b: LightType) -> (j: int)
    requires
        kind_differs(a, b),
    ensures
        one_word_differs(
            light_type_words(a),
            light_type_words(b),
            j,
        ),
{
    let x = light_type_words(a);
    let y = light_type_words(b);
    match (a, b) {
        (
            LightType::Point { attenuation_radius: p },
            LightType::Point { attenuation_radius: q },
        ) => {
            lemma_changed_number(p, q);
            assert(y =~= x.update(1, y[1]));
            1
        },
        (
            LightType::Spot { inner_cone_cos: i, outer_cone_cos: o, attenuation_radius: p },
            LightType::Spot { inner_cone_cos: j, outer_cone_cos: u, attenuation_radius: q },
        ) => {
            if changed(p, q) && i == j && o == u {
                lemma_changed_number(p, q);
                assert(y =~= x.update(1, y[1]));
                1
            } else if p == q && changed(i, j) && o == u {
                lemma_changed_number(i, j);
                assert(y =~= x.update(2, y[2]));
                2
            } else {
                lemma_changed_number(o, u);
                assert(y =~= x.update(3, y[3]));
                3
            }
        },
        (
            LightType::Point { attenuation_radius: p },
            LightType::Spot { inner_cone_cos: j, outer_cone_cos: u, attenuation_radius: q },
        ) => {
            lemma_zero_bits(j);
            lemma_zero_bits(u);
            assert(y =~= x.update(0, y[0]));
            0
        },
        _ => {
            lemma_zero_bits(F32 { bits: 0 });
            assert(y =~= x.update(0, y[0]));
            0
        },
    }
}

/// The words of a light, part by part.
spec fn light_word_parts(light: CollectedLight) -> Seq<Seq<u32>> {
    seq![
        light_type_words(light.light_type),
        vec3_words(light.world_position),
        vec3_words(light.world_direction),
        vec3_words(light.color),
        seq![
            number_word(light.intensity),
            number_word(light.radius),
            light.layers,
            flag_word(light.casts_shadows),
        ],
    ]
}

proof fn lemma_light_words(light: CollectedLight)
    ensures
        joined(light_word_parts(light)) == light_words(light),
{
    let parts = light_word_parts(light);
    lemma_join_next(parts, 0);
    lemma_join_next(parts, 1);
    lemma_join_next(parts, 2);
    lemma_join_next(parts, 3);
    lemma_join_next(parts, 4);
    lemma_nothing_before(parts[0]);
    assert(parts.take(5) =~= parts);
}

/// A light that changes in one property is noticed: the geometry hash changes.
pub proof fn law_changed_light_is_noticed(
    nodes: Seq<SceneNode3d>,
    before: LightCollection,
    after: LightCollection,
    render_layers: u32,
    i: int,
)
    requires
        0 <= i < before.lights@.len(),
        after.lights@ == before.lights@.update(i, after.lights@[i]),
        after.ambient == before.ambient,
        after.ambient_color == before.ambient_color,
        after.fog == before.fog,
        light_differs(before.lights@[i], after.lights@[i]),
    ensures
        geometry_hash(nodes, before, render_layers) != geometry_hash(nodes, after, render_layers),
{
    let k = lemma_light_change(before.lights@[i], after.lights@[i]);
    law_changed_light_is_detected(nodes, before, after, render_layers, i, k);
}

#[verifier::rlimit(60)]
#[verifier::spinoff_prover]
proof fn lemma_light_change(a: CollectedLight, b: CollectedLight) -> (k: int)
    requires
        light_differs(a, b),
    ensures
        one_word_differs(light_words(a), light_words(b), k),
{
    let x = light_word_parts(a);
    let y = light_word_parts(b);
    let (part, j): (int, int) = if b == (CollectedLight { world_position: b.world_position, ..a })
        && vector_changed(a.world_position, b.world_position) {
        (1int, lemma_vector_words(a.world_position, b.world_position))
    } else if b == (CollectedLight { world_direction: b.world_direction, ..a }) && vector_changed(
        a.world_direction,
        b.world_direction,
    ) {
        (2int, lemma_vector_words(a.world_direction, b.world_direction))
    } else if b == (CollectedLight { color: b.color, ..a }) && vector_changed(a.color, b.color) {
        (3int, lemma_vector_words(a.color, b.color))
    } else if b == (CollectedLight { intensity: b.intensity, ..a }) && changed(
        a.intensity,
        b.intensity,
    ) {
        lemma_changed_number(a.intensity, b.intensity);
        assert(y[4] =~= x[4].update(0, y[4][0]));
        (4int, 0int)
    } else if b == (CollectedLight { radius: b.radius, ..a }) && changed(a.radius, b.radius) {
        lemma_changed_number(a.radius, b.radius);
        assert(y[4] =~= x[4].update(1, y[4][1]));
        (4int, 1int)
    } else if b == (CollectedLight { layers: b.layers, ..a }) && a.layers != b.layers {
        assert(y[4] =~= x[4].update(2, y[4][2]));
        (4int, 2int)
    } else if b == (CollectedLight { casts_shadows: b.casts_shadows, ..a }) && a.casts_shadows
        != b.casts_shadows {
        assert(y[4] =~= x[4].update(3, y[4][3]));
        (4int, 3int)
    } else {
        (0int, lemma_kind_words(a.light_type, b.light_type))
    };
    assert(y =~= x.update(part, y[part]));
    assert(one_word_differs(x[part], y[part], j));
    lemma_light_words(a);
    lemma_light_words(b);
    lemma_joined_change(x, y, part, j)
}

/// The scene-wide lighting of the two differs in exactly one number.
pub open spec fn lighting_differs(a: LightCollection, b: LightCollection) -> bool {
    ||| (changed(a.ambient, b.ambient) && b.ambient_color == a.ambient_color && b.fog == a.fog)
    ||| {
        &&& b.ambient == a.ambient
        &&& b.fog == a.fog
        &&& {
            ||| (b.ambient_color == (Color { r: b.ambient_color.r, ..a.ambient_color }) && changed(
                a.ambient_color.r,
                b.ambient_color.r,
            ))
            ||| (b.ambient_color == (Color { g: b.ambient_color.g, ..a.ambient_color }) && changed(
                a.ambient_color.g,
                b.ambient_color.g,
            ))
            ||| (b.ambient_color == (Color { b: b.ambient_color.b, ..a.ambient_color }) && changed(
                a.ambient_color.b,
                b.ambient_color.b,
            ))
        }
    }
    ||| {
        &&& b.ambient == a.ambient
        &&& b.ambient_color == a.ambient_color
        &&& b.fog == (Fog { color: b.fog.color, ..a.fog })
        &&& {
            ||| (b.fog.color == (Color { r: b.fog.color.r, ..a.fog.color }) && changed(
                a.fog.color.r,
                b.fog.color.r,
            ))
            ||| (b.fog.color == (Color { g: b.fog.color.g, ..a.fog.color }) && changed(
                a.fog.color.g,
                b.fog.color.g,
            ))
            ||| (b.fog.color == (Color { b: b.fog.color.b, ..a.fog.color }) && changed(
                a.fog.color.b,
                b.fog.color.b,
            ))
            ||| (b.fog.color == (Color { a: b.fog.color.a, ..a.fog.color }) && changed(
                a.fog.color.a,
                b.fog.color.a,
            ))
        }
    }
    ||| {
        &&& b.ambient == a.ambient
        &&& b.ambient_color == a.ambient_color
        &&& b.fog == (Fog { params: b.fog.params, ..a.fog })
        &&& exists|c: int| component_changed(a.fog.params, b.fog.params, c)
    }
}

/// Ambient light or fog that changes in one number is noticed: the geometry hash changes.
pub proof fn law_changed_lighting_is_noticed(
    nodes: Seq<SceneNode3d>,
    before: LightCollection,
    after: LightCollection,
    render_layers: u32,
)
    requires
        after.lights@ == before.lights@,
        lighting_differs(before, after),
    ensures
        geometry_hash(nodes, before, render_layers) != geometry_hash(nodes, after, render_layers),
{
    let x = globals_words(before);
    let y = globals_words(after);
    let j = lemma_globals(before, after);
    let l = lights_words(before.lights@);
    assert(l + y =~= (l + x).update(l.len() + j, y[j]));
    law_changed_lighting_is_detected(nodes, before, after, render_layers, l.len() + j);
}

/// The first words of the scene-wide lighting.
spec fn ambient_words(l: LightCollection) -> Seq<u32> {
    seq![
        number_word(l.ambient),
        number_word(l.ambient_color.r),
        number_word(l.ambient_color.g),
        number_word(l.ambient_color.b),
        number_word(l.fog.color.r),
        number_word(l.fog.color.g),
        number_word(l.fog.color.b),
        number_word(l.fog.color.a),
    ]
}

proof fn lemma_in_front(x: Seq<u32>, y: Seq<u32>, tail: Seq<u32>, j: int)
    requires
        one_word_differs(x, y, j),
    ensures
        one_word_differs(x + tail, y + tail, j),
{
    assert(y + tail =~= (x + tail).update(j, y[j]));
}

proof fn lemma_behind(head: Seq<u32>, x: Seq<u32>, y: Seq<u32>, j: int)
    requires
        one_word_differs(x, y, j),
    ensures
        one_word_differs(head + x, head + y, head.len() + j),
{
    assert(head + y =~= (head + x).update(head.len() + j, y[j]));
}

proof fn lemma_globals(a: LightCollection, b: LightCollection) -> (j: int)
    requires
        lighting_differs(a, b),
    ensures
        one_word_differs(globals_words(a), globals_words(b), j),
{
    let p = four_words(a.fog.params);
    let q = four_words(b.fog.params);
    assert(globals_words(a) == ambient_words(a) + p);
    assert(globals_words(b) == ambient_words(b) + q);
    if exists|c: int| component_changed(a.fog.params, b.fog.params, c) {
        let c = choose|c: int| component_changed(a.fog.params, b.fog.params, c);
        lemma_four_words(a.fog.params, b.fog.params, c);
        lemma_params_alone(a, b);
        lemma_behind(ambient_words(a), p, q, c);
        8 + c
    } else {
        let j = lemma_ambient(a, b);
        lemma_in_front(ambient_words(a), ambient_words(b), p, j);
        j
    }
}

proof fn lemma_params_alone(a: LightCollection, b: LightCollection)
    requires
        lighting_differs(a, b),
        exists|c: int| component_changed(a.fog.params, b.fog.params, c),
    ensures
        ambient_words(b) == ambient_words(a),
{
    let c = choose|c: int| component_changed(a.fog.params, b.fog.params, c);
    assert(a.fog.params@[c] != b.fog.params@[c]);
    assert(b.fog.params != a.fog.params);
    assert(b.fog != a.fog);
}

proof fn lemma_ambient(a: LightCollection, b: LightCollection) -> (j: int)
    requires
        lighting_differs(a, b),
        !exists|c: int| component_changed(a.fog.params, b.fog.params, c),
    ensures
        one_word_differs(ambient_words(a), ambient_words(b), j),
        b.fog.params == a.fog.params,
{
    let x = ambient_words(a);
    let y = ambient_words(b);
    if changed(a.ambient, b.ambient) && b.ambient_color == a.ambient_color && b.fog == a.fog {
        lemma_changed_number(a.ambient, b.ambient);
        assert(y =~= x.update(0, y[0]));
        0
    } else if b.fog == a.fog {
        let m = a.ambient_color;
        let n = b.ambient_color;
        if n == (Color { r: n.r, ..m }) && changed(m.r, n.r) {
            lemma_changed_number(m.r, n.r);
            assert(y =~= x.update(1, y[1]));
            1
        } else if n == (Color { g: n.g, ..m }) && changed(m.g, n.g) {
            lemma_changed_number(m.g, n.g);
            assert(y =~= x.update(2, y[2]));
            2
        } else {
            lemma_changed_number(m.b, n.b);
            assert(y =~= x.update(3, y[3]));
            3
        }
    } else {
        let m = a.fog.color;
        let n = b.fog.color;
        if n == (Color { r: n.r, ..m }) && changed(m.r, n.r) {
            lemma_changed_number(m.r, n.r);
            assert(y =~= x.update(4, y[4]));
            4
        } else if n == (Color { g: n.g, ..m }) && changed(m.g, n.g) {
            lemma_changed_number(m.g, n.g);
            assert(y =~= x.update(5, y[5]));
            5
        } else if n == (Color { b: n.b, ..m }) && changed(m.b, n.b) {
            lemma_changed_number(m.b, n.b);
            assert(y =~= x.update(6, y[6]));
            6
        } else {
            lemma_changed_number(m.a, n.a);
            assert(y =~= x.update(7, y[7]));
            7
        }
    }
}

} // verus!
