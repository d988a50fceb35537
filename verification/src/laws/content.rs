//! Laws of the content hashes.

use crate::content::{
    flag_word, geometry_hash, globals_words, lemma_concat, light_type_words, light_words,
    lights_words, node_geometry_words, node_transform_words, nodes_geometry_words,
    nodes_transform_words, transform_hash,
};
use crate::float::{lemma_equal_numbers, lemma_one_is_positive, F32};
use crate::fnv::{fnv1a, number_word, vec3_words};
use crate::gather::rt_light;
use crate::laws::hash::law_single_word_change_is_detected;
use crate::records::RtScene;
use crate::scene::{CollectedLight, LightCollection, SceneNode3d};
use vstd::prelude::*;

verus! {

/// The hashes that are computed without building a scene are those that gathering
/// the scene records.
pub proof fn law_scene_hashes_match_gather(
    nodes: Seq<SceneNode3d>,
    lights: LightCollection,
    render_layers: u32,
    scene: RtScene,
    hashes: (u64, u64),
)
    requires
        scene.geom_hash == geometry_hash(nodes, lights, render_layers),
        scene.xform_hash == transform_hash(nodes, render_layers),
        hashes.0 == geometry_hash(nodes, lights, render_layers),
        hashes.1 == transform_hash(nodes, render_layers),
    ensures
        hashes == (scene.geom_hash, scene.xform_hash),
{
}

/// Numbers that are equal hash equally, and numbers that hash equally are equal,
/// unless they are the same NaN.
pub proof fn law_equal_numbers_hash_equally(a: F32, b: F32)
    ensures
        a.same_number(b) ==> number_word(a) == number_word(b),
        number_word(a) == number_word(b) ==> a.same_number(b) || (a.nan() && a == b),
{
    lemma_equal_numbers(a, b);
}

/// The two nodes differ at most in their world transforms: in pose, scale, and the
/// offsets and deformations of the instances.
pub open spec fn differ_in_transform(a: SceneNode3d, b: SceneNode3d) -> bool {
    match (a.object, b.object) {
        (Some(x), Some(y)) => {
            &&& x.data == y.data
            &&& x.mesh == y.mesh
            &&& x.instances.count == y.instances.count
            &&& x.instances.colors == y.instances.colors
        },
        (None, None) => true,
        _ => false,
    }
}

/// Moving things does not change the geometry hash.
pub proof fn law_geometry_hash_ignores_transforms(
    a: Seq<SceneNode3d>,
    b: Seq<SceneNode3d>,
    lights: LightCollection,
    render_layers: u32,
)
    requires
        a.len() == b.len(),
        forall|i: int| 0 <= i < a.len() ==> differ_in_transform(#[trigger] a[i], b[i]),
    ensures
        geometry_hash(a, lights, render_layers) == geometry_hash(b, lights, render_layers),
{
    lemma_geometry_words_ignore_transforms(a, b, render_layers);
}

#[verifier::rlimit(60)]
#[verifier::spinoff_prover]
proof fn lemma_geometry_words_ignore_transforms(
    a: Seq<SceneNode3d>,
    b: Seq<SceneNode3d>,
    render_layers: u32,
)
    requires
        a.len() == b.len(),
        forall|i: int| 0 <= i < a.len() ==> differ_in_transform(#[trigger] a[i], b[i]),
    ensures
        nodes_geometry_words(a, render_layers) == nodes_geometry_words(b, render_layers),
    decreases a.len(),
{
    if a.len() > 0 {
        let x = a.last();
        let y = b.last();
        assert(differ_in_transform(a[a.len() - 1], b[a.len() - 1]));
        assert forall|i: int| 0 <= i < a.drop_last().len() implies differ_in_transform(
            #[trigger] a.drop_last()[i],
            b.drop_last()[i],
        ) by {
            assert(a.drop_last()[i] == a[i]);
        }
        lemma_geometry_words_ignore_transforms(a.drop_last(), b.drop_last(), render_layers);
        assert(x.traced(render_layers) == y.traced(render_layers));
        if x.traced(render_layers) {
            assert(node_geometry_words(x) == node_geometry_words(y));
        }
    }
}

/// The two nodes have the same world transform and are both traced or both not.
pub open spec fn same_transform(a: SceneNode3d, b: SceneNode3d, render_layers: u32) -> bool {
    &&& a.traced(render_layers) == b.traced(render_layers)
    &&& a.traced(render_layers) ==> {
        &&& a.pose == b.pose
        &&& a.scale == b.scale
        &&& a.object->0.instances.positions == b.object->0.instances.positions
        &&& a.object->0.instances.deformations == b.object->0.instances.deformations
    }
}

/// Materials, geometry and instance colors do not change the transform hash, as long
/// as the same nodes are traced.
pub proof fn law_transform_hash_ignores_appearance(
    a: Seq<SceneNode3d>,
    b: Seq<SceneNode3d>,
    render_layers: u32,
)
    requires
        a.len() == b.len(),
        forall|i: int| 0 <= i < a.len() ==> same_transform(#[trigger] a[i], b[i], render_layers),
    ensures
        transform_hash(a, render_layers) == transform_hash(b, render_layers),
{
    lemma_transform_words_ignore_appearance(a, b, render_layers);
}

proof fn lemma_transform_words_ignore_appearance(
    a: Seq<SceneNode3d>,
    b: Seq<SceneNode3d>,
    render_layers: u32,
)
    requires
        a.len() == b.len(),
        forall|i: int| 0 <= i < a.len() ==> same_transform(#[trigger] a[i], b[i], render_layers),
    ensures
        nodes_transform_words(a, render_layers) == nodes_transform_words(b, render_layers),
    decreases a.len(),
{
    if a.len() > 0 {
        assert(same_transform(a[a.len() - 1], b[a.len() - 1], render_layers));
        assert forall|i: int| 0 <= i < a.drop_last().len() implies same_transform(
            #[trigger] a.drop_last()[i],
            b.drop_last()[i],
            render_layers,
        ) by {
            assert(a.drop_last()[i] == a[i]);
        }
        lemma_transform_words_ignore_appearance(a.drop_last(), b.drop_last(), render_layers);
    }
}

/// A node that is not traced contributes nothing to the hashes.
pub proof fn law_untraced_nodes_are_not_hashed(
    nodes: Seq<SceneNode3d>,
    lights: LightCollection,
    render_layers: u32,
    i: int,
)
    requires
        0 <= i < nodes.len(),
        !nodes[i].traced(render_layers),
    ensures
        geometry_hash(nodes.remove(i), lights, render_layers) == geometry_hash(
            nodes,
            lights,
            render_layers,
        ),
        transform_hash(nodes.remove(i), render_layers) == transform_hash(nodes, render_layers),
{
    lemma_untraced_words(nodes, render_layers, i);
}

#[verifier::rlimit(60)]
#[verifier::spinoff_prover]
proof fn lemma_untraced_words(nodes: Seq<SceneNode3d>, render_layers: u32, i: int)
    requires
        0 <= i < nodes.len(),
        !nodes[i].traced(render_layers),
    ensures
        nodes_geometry_words(nodes.remove(i), render_layers) == nodes_geometry_words(
            nodes,
            render_layers,
        ),
        nodes_transform_words(nodes.remove(i), render_layers) == nodes_transform_words(
            nodes,
            render_layers,
        ),
    decreases nodes.len(),
{
    if i == nodes.len() - 1 {
        assert(nodes.remove(i) =~= nodes.drop_last());
    } else {
        lemma_untraced_words(nodes.drop_last(), render_layers, i);
        assert(nodes.remove(i).drop_last() =~= nodes.drop_last().remove(i));
        assert(nodes.remove(i).last() == nodes.last());
    }
}

/// The parts, one after the other.
pub open spec fn joined(parts: Seq<Seq<u32>>) -> Seq<u32>
    decreases parts.len(),
{
    if parts.len() == 0 {
        Seq::empty()
    } else {
        joined(parts.drop_last()) + parts.last()
    }
}

/// What each node contributes to the geometry hash.
pub open spec fn geometry_parts(nodes: Seq<SceneNode3d>, render_layers: u32) -> Seq<Seq<u32>> {
    nodes.map_values(
        |node: SceneNode3d|
            if node.traced(render_layers) {
                node_geometry_words(node)
            } else {
                Seq::empty()
            },
    )
}

/// What each node contributes to the transform hash.
pub open spec fn transform_parts(nodes: Seq<SceneNode3d>, render_layers: u32) -> Seq<Seq<u32>> {
    nodes.map_values(
        |node: SceneNode3d|
            if node.traced(render_layers) {
                node_transform_words(node)
            } else {
                Seq::empty()
            },
    )
}

proof fn lemma_joined_push(parts: Seq<Seq<u32>>, part: Seq<u32>)
    ensures
        joined(parts.push(part)) == joined(parts) + part,
{
    assert(parts.push(part).drop_last() =~= parts);
}

proof fn lemma_nothing_added(words: Seq<u32>)
    ensures
        words + Seq::<u32>::empty() == words,
{
    assert(words + Seq::<u32>::empty() =~= words);
}

proof fn lemma_content_by_node(nodes: Seq<SceneNode3d>, render_layers: u32)
    ensures
        joined(geometry_parts(nodes, render_layers)) == nodes_geometry_words(nodes, render_layers),
        joined(transform_parts(nodes, render_layers)) == nodes_transform_words(
            nodes,
            render_layers,
        ),
{
    lemma_geometry_by_node(nodes, render_layers);
    lemma_transforms_by_node(nodes, render_layers);
}

#[verifier::rlimit(60)]
#[verifier::spinoff_prover]
proof fn lemma_geometry_by_node(nodes: Seq<SceneNode3d>, render_layers: u32)
    ensures
        joined(geometry_parts(nodes, render_layers)) == nodes_geometry_words(nodes, render_layers),
    decreases nodes.len(),
{
    if nodes.len() > 0 {
        let rest = nodes.drop_last();
        lemma_geometry_by_node(rest, render_layers);
        let g = geometry_parts(rest, render_layers);
        let last = geometry_parts(nodes, render_layers).last();
        assert(geometry_parts(nodes, render_layers) =~= g.push(last));
        lemma_joined_push(g, last);
        lemma_nothing_added(joined(g));
    }
}

#[verifier::rlimit(60)]
#[verifier::spinoff_prover]
proof fn lemma_transforms_by_node(nodes: Seq<SceneNode3d>, render_layers: u32)
    ensures
        joined(transform_parts(nodes, render_layers)) == nodes_transform_words(
            nodes,
            render_layers,
        ),
    decreases nodes.len(),
{
    if nodes.len() > 0 {
        let rest = nodes.drop_last();
        lemma_transforms_by_node(rest, render_layers);
        let t = transform_parts(rest, render_layers);
        let last = transform_parts(nodes, render_layers).last();
        assert(transform_parts(nodes, render_layers) =~= t.push(last));
        lemma_joined_push(t, last);
        lemma_nothing_added(joined(t));
    }
}

/// Where one part changes in one word, so does the whole.
pub(crate) proof fn lemma_changed_part(
    parts: Seq<Seq<u32>>,
    i: int,
    part: Seq<u32>,
    j: int,
) -> (k: int)
    requires
        0 <= i < parts.len(),
        0 <= j < parts[i].len(),
        part == parts[i].update(j, part[j]),
        part[j] != parts[i][j],
    ensures
        0 <= k < joined(parts).len(),
        joined(parts.update(i, part)) == joined(parts).update(k, part[j]),
        joined(parts)[k] != part[j],
    decreases parts.len(),
{
    let after = parts.update(i, part);
    if i == parts.len() - 1 {
        let k = joined(parts.drop_last()).len() + j;
        assert(after.drop_last() =~= parts.drop_last());
        assert(joined(after) =~= joined(parts).update(k, part[j]));
        k
    } else {
        let k = lemma_changed_part(parts.drop_last(), i, part, j);
        assert(after.drop_last() =~= parts.drop_last().update(i, part));
        assert(joined(after) =~= joined(parts).update(k, part[j]));
        k
    }
}

proof fn lemma_changed_word_in_front(before: Seq<u32>, k: int, w: u32, tail: Seq<u32>)
    requires
        0 <= k < before.len(),
        w != before[k],
    ensures
        fnv1a(before + tail) != fnv1a(before.update(k, w) + tail),
{
    assert(before.update(k, w) + tail =~= (before + tail).update(k, w));
    law_single_word_change_is_detected(before + tail, k, w);
}

proof fn lemma_changed_word_at_the_end(head: Seq<u32>, before: Seq<u32>, j: int, w: u32)
    requires
        0 <= j < before.len(),
        w != before[j],
    ensures
        fnv1a(head + before) != fnv1a(head + before.update(j, w)),
{
    assert(head + before.update(j, w) =~= (head + before).update(head.len() + j, w));
    law_single_word_change_is_detected(head + before, head.len() + j, w);
}

/// A change of one hashed property of one traced node changes the geometry hash.
#[verifier::rlimit(60)]
#[verifier::spinoff_prover]
pub proof fn law_changed_property_is_detected(
    nodes: Seq<SceneNode3d>,
    lights: LightCollection,
    render_layers: u32,
    i: int,
    changed: SceneNode3d,
    j: int,
)
    requires
        0 <= i < nodes.len(),
        nodes[i].traced(render_layers),
        changed.traced(render_layers),
        0 <= j < node_geometry_words(nodes[i]).len(),
        node_geometry_words(changed) == node_geometry_words(nodes[i]).update(
            j,
            node_geometry_words(changed)[j],
        ),
        node_geometry_words(changed)[j] != node_geometry_words(nodes[i])[j],
    ensures
        geometry_hash(nodes.update(i, changed), lights, render_layers) != geometry_hash(
            nodes,
            lights,
            render_layers,
        ),
{
    let after = nodes.update(i, changed);
    let parts = geometry_parts(nodes, render_layers);
    let part = node_geometry_words(changed);
    lemma_content_by_node(nodes, render_layers);
    lemma_content_by_node(after, render_layers);
    assert(geometry_parts(after, render_layers) =~= parts.update(i, part));
    let k = lemma_changed_part(parts, i, part, j);
    let words = nodes_geometry_words(nodes, render_layers);
    let lighting = lights_words(lights.lights@);
    let globals = globals_words(lights);
    lemma_concat(words, lighting, globals);
    lemma_concat(words.update(k, part[j]), lighting, globals);
    lemma_changed_word_in_front(words, k, part[j], lighting + globals);
}

/// A node that moves by one number changes the transform hash.
#[verifier::rlimit(60)]
#[verifier::spinoff_prover]
pub proof fn law_motion_is_detected(
    nodes: Seq<SceneNode3d>,
    render_layers: u32,
    i: int,
    moved: SceneNode3d,
    j: int,
)
    requires
        0 <= i < nodes.len(),
        nodes[i].traced(render_layers),
        moved.traced(render_layers),
        0 <= j < node_transform_words(nodes[i]).len(),
        node_transform_words(moved) == node_transform_words(nodes[i]).update(
            j,
            node_transform_words(moved)[j],
        ),
        node_transform_words(moved)[j] != node_transform_words(nodes[i])[j],
    ensures
        transform_hash(nodes.update(i, moved), render_layers) != transform_hash(
            nodes,
            render_layers,
        ),
{
    let after = nodes.update(i, moved);
    let parts = transform_parts(nodes, render_layers);
    let part = node_transform_words(moved);
    lemma_content_by_node(nodes, render_layers);
    lemma_content_by_node(after, render_layers);
    assert(transform_parts(after, render_layers) =~= parts.update(i, part));
    let k = lemma_changed_part(parts, i, part, j);
    law_single_word_change_is_detected(
        nodes_transform_words(nodes, render_layers),
        k,
        part[j],
    );
}

/// A change of one hashed number of the lights or of the scene-wide lighting changes
/// the geometry hash.
pub proof fn law_changed_lighting_is_detected(
    nodes: Seq<SceneNode3d>,
    before: LightCollection,
    after: LightCollection,
    render_layers: u32,
    j: int,
)
    requires
        ({
            let x = lights_words(before.lights@) + globals_words(before);
            let y = lights_words(after.lights@) + globals_words(after);
            &&& 0 <= j < x.len()
            &&& y == x.update(j, y[j])
            &&& y[j] != x[j]
        }),
    ensures
        geometry_hash(nodes, before, render_layers) != geometry_hash(nodes, after, render_layers),
{
    let head = nodes_geometry_words(nodes, render_layers);
    let x = lights_words(before.lights@) + globals_words(before);
    let y = lights_words(after.lights@) + globals_words(after);
    lemma_concat(head, lights_words(before.lights@), globals_words(before));
    lemma_concat(head, lights_words(after.lights@), globals_words(after));
    lemma_changed_word_at_the_end(head, x, j, y[j]);
}

/// The hashed words of a light tell apart what the kernel reads of it: lights with the
/// same words have the same record, up to the sign of zeros.
pub proof fn law_light_words_tell_lights_apart(a: CollectedLight, b: CollectedLight)
    requires
        light_words(a) == light_words(b),
    ensures
        ({
            let x = rt_light(a);
            let y = rt_light(b);
            &&& x.light_type == y.light_type
            &&& number_word(x.attenuation_radius) == number_word(y.attenuation_radius)
            &&& number_word(x.inner_cone_cos) == number_word(y.inner_cone_cos)
            &&& number_word(x.outer_cone_cos) == number_word(y.outer_cone_cos)
            &&& vec3_words(a.world_position) == vec3_words(b.world_position)
            &&& vec3_words(a.world_direction) == vec3_words(b.world_direction)
            &&& vec3_words(a.color) == vec3_words(b.color)
            &&& number_word(x.intensity) == number_word(y.intensity)
            &&& number_word(x.radius) == number_word(y.radius)
            &&& x.layers == y.layers
            &&& x.casts_shadows == y.casts_shadows
        }),
{
    let u = light_words(a);
    let v = light_words(b);
    lemma_light_type_words(a);
    lemma_light_type_words(b);
    assert(u[0] == light_type_words(a.light_type)[0] && v[0] == light_type_words(b.light_type)[0]);
    assert(u[1] == light_type_words(a.light_type)[1] && v[1] == light_type_words(b.light_type)[1]);
    assert(u[2] == light_type_words(a.light_type)[2] && v[2] == light_type_words(b.light_type)[2]);
    assert(u[3] == light_type_words(a.light_type)[3] && v[3] == light_type_words(b.light_type)[3]);
    assert(vec3_words(a.world_position) =~= u.subrange(4, 7));
    assert(vec3_words(b.world_position) =~= v.subrange(4, 7));
    assert(vec3_words(a.world_direction) =~= u.subrange(7, 10));
    assert(vec3_words(b.world_direction) =~= v.subrange(7, 10));
    assert(vec3_words(a.color) =~= u.subrange(10, 13));
    assert(vec3_words(b.color) =~= v.subrange(10, 13));
    assert(u[13] == number_word(a.intensity) && v[13] == number_word(b.intensity));
    assert(u[14] == number_word(a.radius) && v[14] == number_word(b.radius));
    assert(u[15] == a.layers && v[15] == b.layers);
    assert(u[16] == flag_word(a.casts_shadows) && v[16] == flag_word(b.casts_shadows));
}

/// The words of a light's kind are the kind's part of its record.
proof fn lemma_light_type_words(light: CollectedLight)
    ensures
        light_type_words(light.light_type) == seq![
            rt_light(light).light_type,
            number_word(rt_light(light).attenuation_radius),
            number_word(rt_light(light).inner_cone_cos),
            number_word(rt_light(light).outer_cone_cos),
        ],
{
    lemma_one_is_positive();
}

/// A change of one number of one light, or of its kind alone, changes the geometry hash.
pub proof fn law_changed_light_is_detected(
    nodes: Seq<SceneNode3d>,
    before: LightCollection,
    after: LightCollection,
    render_layers: u32,
    i: int,
    j: int,
)
    requires
        0 <= i < before.lights@.len(),
        after.lights@ == before.lights@.update(i, after.lights@[i]),
        globals_words(after) == globals_words(before),
        ({
            let x = light_words(before.lights@[i]);
            let y = light_words(after.lights@[i]);
            &&& 0 <= j < x.len()
            &&& y == x.update(j, y[j])
            &&& y[j] != x[j]
        }),
    ensures
        geometry_hash(nodes, before, render_layers) != geometry_hash(nodes, after, render_layers),
{
    let parts = light_parts(before.lights@);
    let part = light_words(after.lights@[i]);
    lemma_content_by_light(before.lights@);
    lemma_content_by_light(after.lights@);
    assert(light_parts(after.lights@) =~= parts.update(i, part));
    let k = lemma_changed_part(parts, i, part, j);
    let head = nodes_geometry_words(nodes, render_layers);
    let words = lights_words(before.lights@);
    let globals = globals_words(before);
    lemma_concat(head, words, globals);
    lemma_concat(head, words.update(k, part[j]), globals);
    assert(words.update(k, part[j]) + globals =~= (words + globals).update(k, part[j]));
    lemma_changed_word_at_the_end(head, words + globals, k, part[j]);
}

/// What each light contributes to the geometry hash.
pub open spec fn light_parts(lights: Seq<CollectedLight>) -> Seq<Seq<u32>> {
    lights.map_values(|light: CollectedLight| light_words(light))
}

proof fn lemma_content_by_light(lights: Seq<CollectedLight>)
    ensures
        joined(light_parts(lights)) == lights_words(lights),
    decreases lights.len(),
{
    if lights.len() > 0 {
        let rest = lights.drop_last();
        lemma_content_by_light(rest);
        assert(light_parts(lights) =~= light_parts(rest).push(light_words(lights.last())));
        lemma_joined_push(light_parts(rest), light_words(lights.last()));
    }
}

} // verus!
