//! Laws of scene extraction.

use crate::bake::{face_within, BakedObject};
use crate::bounds::vertices_within;
use crate::gather::{
    gatherable, gathered, gathered_transforms, indices_fit, lemma_stored_meshes, mesh_table,
    mesh_triangle, mesh_vertex, object_emitters, object_instance, object_material,
    object_textures, optional_texture, placeable, with_mesh, with_object, SceneModel,
};
use crate::gpu_scene::{
    instances_within, meshes_within, moved_instances, triangles_within, Placement,
};
use crate::laws::content::differ_in_transform;
use crate::records::{RtInstance, RtMeshRange, RtScene, RtTriangle, NO_TEXTURE};
use crate::scene::{Mat4, Object3d, SceneNode3d};
use vstd::prelude::*;

verus! {

/// The indices of the stored meshes, of their vertices and of their triangles have 32
/// bits.
pub open spec fn in_limits(m: SceneModel) -> bool {
    &&& m.vertices.len() <= u32::MAX
    &&& m.triangles.len() <= u32::MAX
    &&& m.ranges.len() <= u32::MAX
}

/// The triangle refers to vertices of the range.
pub open spec fn triangle_in_range(t: RtTriangle, range: RtMeshRange) -> bool {
    let end = range.vert_start + range.vert_count;
    &&& range.vert_start <= t.v0 < end
    &&& range.vert_start <= t.v1 < end
    &&& range.vert_start <= t.v2 < end
}

/// The ranges follow one another without a gap, none of them is empty, and together
/// they cover the vertices and the triangles.
pub open spec fn tiled(m: SceneModel) -> bool {
    let n = m.ranges.len();
    &&& n == 0 ==> m.vertices.len() == 0 && m.triangles.len() == 0
    &&& n > 0 ==> {
        let last = m.ranges[n - 1];
        &&& m.ranges[0].vert_start == 0
        &&& m.ranges[0].tri_start == 0
        &&& last.vert_start + last.vert_count == m.vertices.len()
        &&& last.tri_start + last.tri_count == m.triangles.len()
    }
    &&& forall|k: int|
        0 <= k < n - 1 ==> {
            let a = #[trigger] m.ranges[k];
            let b = m.ranges[k + 1];
            &&& b.vert_start == a.vert_start + a.vert_count
            &&& b.tri_start == a.tri_start + a.tri_count
        }
    &&& forall|k: int|
        0 <= k < n ==> {
            let range = #[trigger] m.ranges[k];
            &&& range.vert_count > 0
            &&& range.tri_count > 0
            &&& vertices_within(range, m.vertices.len())
            &&& triangles_within(range, m.triangles.len())
        }
}

/// The triangles of every mesh refer to vertices of that mesh.
pub open spec fn self_contained(m: SceneModel) -> bool {
    forall|k: int, t: int|
        #![trigger m.ranges[k], m.triangles[t]]
        0 <= k < m.ranges.len() && m.ranges[k].tri_start <= t < m.ranges[k].tri_start
            + m.ranges[k].tri_count ==> triangle_in_range(m.triangles[t], m.ranges[k])
}

/// The faces of every traced object refer to its own vertices.
pub open spec fn faces_valid(nodes: Seq<SceneNode3d>, render_layers: u32) -> bool {
    forall|i: int, j: int|
        #![trigger nodes[i].object->0.faces()[j]]
        0 <= i < nodes.len() && nodes[i].traced(render_layers) && 0 <= j
            < nodes[i].object->0.faces().len() ==> face_within(
            nodes[i].object->0.faces()[j],
            nodes[i].object->0.coords().len(),
        )
}

proof fn lemma_limits_of_prefix(
    before: SceneModel,
    object: Object3d,
    baked: BakedObject,
    shared: Option<u32>,
)
    requires
        in_limits(with_object(before, object, baked, shared)),
    ensures
        in_limits(before),
        shared is None ==> {
            &&& object.coords().len() <= u32::MAX
            &&& object.faces().len() <= u32::MAX
            &&& before.vertices.len() + object.coords().len() <= u32::MAX
            &&& before.triangles.len() + object.faces().len() <= u32::MAX
            &&& before.ranges.len() < u32::MAX
        },
{
    let after = with_object(before, object, baked, shared);
    if shared is None {
        assert(after.vertices.len() == before.vertices.len() + object.coords().len());
        assert(after.triangles.len() == before.triangles.len() + object.faces().len());
        assert(after.ranges.len() == before.ranges.len() + 1);
    }
}

/// The faces of the object refer to its own vertices.
pub open spec fn object_faces_valid(object: Object3d) -> bool {
    forall|j: int|
        0 <= j < object.faces().len() ==> face_within(
            #[trigger] object.faces()[j],
            object.coords().len(),
        )
}

proof fn lemma_mesh_keeps_tiling(before: SceneModel, object: Object3d, baked: BakedObject)
    requires
        object.has_geometry(),
        in_limits(with_mesh(before, object, baked)),
        tiled(before),
    ensures
        tiled(with_mesh(before, object, baked)),
        self_contained(before) && object_faces_valid(object) ==> self_contained(
            with_mesh(before, object, baked),
        ),
{
    let after = with_mesh(before, object, baked);
    assert(after.vertices.len() == before.vertices.len() + object.coords().len());
    assert(after.triangles.len() == before.triangles.len() + object.faces().len());
    let n = before.ranges.len() as int;
    assert forall|k: int| 0 <= k < after.ranges.len() - 1 implies {
        let a = #[trigger] after.ranges[k];
        let b = after.ranges[k + 1];
        &&& b.vert_start == a.vert_start + a.vert_count
        &&& b.tri_start == a.tri_start + a.tri_count
    } by {
        assert(after.ranges[k] == before.ranges[k]);
        if k + 1 < n {
            assert(after.ranges[k + 1] == before.ranges[k + 1]);
        }
    }
    assert forall|k: int| 0 <= k < after.ranges.len() implies {
        let range = #[trigger] after.ranges[k];
        &&& range.vert_count > 0
        &&& range.tri_count > 0
        &&& vertices_within(range, after.vertices.len())
        &&& triangles_within(range, after.triangles.len())
    } by {
        if k < n {
            assert(after.ranges[k] == before.ranges[k]);
        }
    }
    if n > 0 {
        assert(after.ranges[0] == before.ranges[0]);
    }
    if self_contained(before) && object_faces_valid(object) {
        assert forall|k: int, t: int|
            #![trigger after.ranges[k], after.triangles[t]]
            0 <= k < after.ranges.len() && after.ranges[k].tri_start <= t
                < after.ranges[k].tri_start + after.ranges[k].tri_count implies triangle_in_range(
            after.triangles[t],
            after.ranges[k],
        ) by {
            if k < n {
                assert(after.ranges[k] == before.ranges[k]);
                assert(triangles_within(before.ranges[k], before.triangles.len()));
                assert(after.triangles[t] == before.triangles[t]);
            } else {
                let j = t - before.triangles.len();
                assert(face_within(object.faces()[j], object.coords().len()));
                assert(after.triangles[t] == mesh_triangle(
                    object.faces()[j],
                    before.vertices.len() as u32,
                ));
            }
        }
    }
}

/// The meshes of a gathered scene tile its vertices and its triangles, mesh after
/// mesh. Where the faces of the objects are valid, every triangle refers to vertices of
/// its own mesh.
#[verifier::rlimit(60)]
#[verifier::spinoff_prover]
pub proof fn law_meshes_tile_the_arrays(
    nodes: Seq<SceneNode3d>,
    baked: Seq<BakedObject>,
    render_layers: u32,
)
    requires
        nodes.len() == baked.len(),
        in_limits(gathered(nodes, baked, render_layers)),
    ensures
        tiled(gathered(nodes, baked, render_layers)),
        faces_valid(nodes, render_layers) ==> self_contained(
            gathered(nodes, baked, render_layers),
        ),
    decreases nodes.len(),
{
    if nodes.len() > 0 {
        let rest = nodes.drop_last();
        let before = gathered(rest, baked.drop_last(), render_layers);
        if faces_valid(nodes, render_layers) {
            lemma_faces_of_prefix(nodes, render_layers);
        }
        if nodes.last().traced(render_layers) {
            let object = nodes.last().object->0;
            let shared = mesh_table(rest, render_layers).shared(object);
            lemma_limits_of_prefix(before, object, baked.last(), shared);
            law_meshes_tile_the_arrays(rest, baked.drop_last(), render_layers);
            if shared is None {
                lemma_mesh_keeps_tiling(before, object, baked.last());
            }
        } else {
            law_meshes_tile_the_arrays(rest, baked.drop_last(), render_layers);
        }
    }
}

proof fn lemma_faces_of_prefix(nodes: Seq<SceneNode3d>, render_layers: u32)
    requires
        nodes.len() > 0,
        faces_valid(nodes, render_layers),
    ensures
        faces_valid(nodes.drop_last(), render_layers),
        nodes.last().traced(render_layers) ==> object_faces_valid(nodes.last().object->0),
{
    let rest = nodes.drop_last();
    assert forall|i: int, j: int|
        #![trigger rest[i].object->0.faces()[j]]
        0 <= i < rest.len() && rest[i].traced(render_layers) && 0 <= j
            < rest[i].object->0.faces().len() implies face_within(
        rest[i].object->0.faces()[j],
        rest[i].object->0.coords().len(),
    ) by {
        assert(rest[i] == nodes[i]);
        assert(face_within(nodes[i].object->0.faces()[j], nodes[i].object->0.coords().len()));
    }
    if nodes.last().traced(render_layers) {
        let last = nodes.len() - 1;
        let object = nodes.last().object->0;
        assert forall|j: int| 0 <= j < object.faces().len() implies face_within(
            #[trigger] object.faces()[j],
            object.coords().len(),
        ) by {
            assert(face_within(
                nodes[last].object->0.faces()[j],
                nodes[last].object->0.coords().len(),
            ));
        }
    }
}

/// There is one material per instance, in the same order as far as their indices have 32
/// bits, and every instance refers to a mesh of the scene.
pub open spec fn placed(m: SceneModel) -> bool {
    &&& m.materials.len() == m.instances.len()
    &&& forall|i: int|
        0 <= i < m.instances.len() ==> {
            let instance = #[trigger] m.instances[i];
            &&& i <= u32::MAX ==> instance.material_id == i
            &&& instance.mesh_id < m.ranges.len()
        }
}

/// The shared meshes of a table are meshes of the table.
proof fn lemma_shared_meshes_are_stored(nodes: Seq<SceneNode3d>, render_layers: u32)
    ensures
        ({
            let table = mesh_table(nodes, render_layers);
            table.meshes <= u32::MAX ==> forall|address: u64| #[trigger]
                table.ids.contains_key(address) ==> table.ids[address] < table.meshes
        }),
    decreases nodes.len(),
{
    if nodes.len() > 0 {
        lemma_shared_meshes_are_stored(nodes.drop_last(), render_layers);
        let before = mesh_table(nodes.drop_last(), render_layers);
        let table = mesh_table(nodes, render_layers);
        if table.meshes <= u32::MAX {
            assert forall|address: u64| #[trigger]
                table.ids.contains_key(address) implies table.ids[address] < table.meshes by {
                if before.ids.contains_key(address) {
                    assert(before.ids[address] < before.meshes);
                }
            }
        }
    }
}

/// Every instance of a gathered scene refers to a mesh of the scene and has a
/// material of its own.
pub proof fn law_instances_refer_to_the_scene(
    nodes: Seq<SceneNode3d>,
    baked: Seq<BakedObject>,
    render_layers: u32,
)
    requires
        nodes.len() == baked.len(),
        gathered(nodes, baked, render_layers).ranges.len() <= u32::MAX,
    ensures
        placed(gathered(nodes, baked, render_layers)),
    decreases nodes.len(),
{
    if nodes.len() > 0 {
        let rest = nodes.drop_last();
        let before = gathered(rest, baked.drop_last(), render_layers);
        if nodes.last().traced(render_layers) {
            let object = nodes.last().object->0;
            let table = mesh_table(rest, render_layers);
            let shared = table.shared(object);
            assert(before.ranges.len() <= with_object(
                before,
                object,
                baked.last(),
                shared,
            ).ranges.len());
            law_instances_refer_to_the_scene(rest, baked.drop_last(), render_layers);
            lemma_stored_meshes(rest, baked.drop_last(), render_layers);
            lemma_shared_meshes_are_stored(rest, render_layers);
            let after = with_object(before, object, baked.last(), shared);
            let mesh_id = match shared {
                Some(id) => id,
                None => before.ranges.len() as u32,
            };
            assert(mesh_id < after.ranges.len());
            assert forall|i: int| 0 <= i < after.instances.len() implies {
                let instance = #[trigger] after.instances[i];
                &&& i <= u32::MAX ==> instance.material_id == i
                &&& instance.mesh_id < after.ranges.len()
            } by {
                if i < before.instances.len() {
                    assert(after.instances[i] == before.instances[i]);
                } else {
                    let k = i - before.instances.len();
                    assert(after.instances[i] == object_instance(
                        object,
                        baked.last(),
                        k,
                        mesh_id,
                        (before.materials.len() + k) as u32,
                    ));
                }
            }
        } else {
            law_instances_refer_to_the_scene(rest, baked.drop_last(), render_layers);
        }
    }
}

/// The scene that is gathered can be laid out on the GPU: its meshes lie within its
/// arrays and its instances refer to them.
pub proof fn law_gathered_scene_is_consistent(
    nodes: Seq<SceneNode3d>,
    baked: Seq<BakedObject>,
    render_layers: u32,
    scene: RtScene,
)
    requires
        nodes.len() == baked.len(),
        scene.model() == gathered(nodes, baked, render_layers),
        in_limits(scene.model()),
    ensures
        meshes_within(scene),
        instances_within(scene.instances@, scene.mesh_ranges@.len()),
        forall|m: int|
            0 <= m < scene.mesh_ranges@.len() ==> triangles_within(
                #[trigger] scene.mesh_ranges@[m],
                scene.mesh_triangles@.len(),
            ),
{
    law_meshes_tile_the_arrays(nodes, baked, render_layers);
    law_instances_refer_to_the_scene(nodes, baked, render_layers);
    let m = scene.model();
    assert forall|k: int| 0 <= k < scene.mesh_ranges@.len() implies vertices_within(
        #[trigger] scene.mesh_ranges@[k],
        scene.mesh_vertices@.len(),
    ) && triangles_within(scene.mesh_ranges@[k], scene.mesh_triangles@.len()) by {
        assert(m.ranges[k] == scene.mesh_ranges@[k]);
    }
    assert forall|i: int| 0 <= i < scene.instances@.len() implies (
    #[trigger] scene.instances@[i]).mesh_id < scene.mesh_ranges@.len() by {
        assert(m.instances[i] == scene.instances@[i]);
    }
}

/// The layers of an object's materials are the layers of the object's own textures,
/// and `-1` stands for a map that it does not have.
pub proof fn law_material_layers_name_the_textures(
    before: SceneModel,
    object: Object3d,
    baked: BakedObject,
    shared: Option<u32>,
    k: int,
)
    requires
        with_object(before, object, baked, shared).textures.len() <= i32::MAX,
        0 <= k < object.placements(),
    ensures
        ({
            let after = with_object(before, object, baked, shared);
            let m = after.materials[before.materials.len() + k];
            let n = after.textures.len();
            let data = object.data;
            &&& 0 <= m.albedo_tex < n && after.textures[m.albedo_tex as int] == data.texture
            &&& match data.normal_map {
                Some(map) => 0 <= m.normal_tex < n && after.textures[m.normal_tex as int] == map,
                None => m.normal_tex == NO_TEXTURE,
            }
            &&& match data.metallic_roughness_map {
                Some(map) => 0 <= m.mr_tex < n && after.textures[m.mr_tex as int] == map,
                None => m.mr_tex == NO_TEXTURE,
            }
            &&& match data.emissive_map {
                Some(map) => 0 <= m.emissive_tex < n && after.textures[m.emissive_tex as int]
                    == map,
                None => m.emissive_tex == NO_TEXTURE,
            }
        }),
{
    let after = with_object(before, object, baked, shared);
    let data = object.data;
    let m = after.materials[before.materials.len() + k];
    assert(m == object_material(data, before.textures.len(), baked.instances@[k].base_color));
    let a = seq![data.texture];
    let b = optional_texture(data.normal_map);
    let c = optional_texture(data.metallic_roughness_map);
    let d = optional_texture(data.emissive_map);
    let all = object_textures(data);
    let start = before.textures.len() as int;
    assert(all =~= a + b + c + d);
    assert(after.textures[start] == all[0]);
    if b.len() == 1 {
        assert(all[1] == b[0]);
        assert(after.textures[start + 1] == all[1]);
    }
    if c.len() == 1 {
        let i = (1 + b.len()) as int;
        assert(all[i] == c[0]);
        assert(after.textures[start + i] == all[i]);
    }
    if d.len() == 1 {
        let i = (1 + b.len() + c.len()) as int;
        assert(all[i] == d[0]);
        assert(after.textures[start + i] == all[i]);
    }
}

/// How many emitters the nodes fill in: a face of an emissive object, once per
/// placement.
pub open spec fn emitter_total(
    nodes: Seq<SceneNode3d>,
    baked: Seq<BakedObject>,
    render_layers: u32,
) -> nat
    decreases nodes.len(),
{
    if nodes.len() == 0 {
        0
    } else {
        let before = emitter_total(nodes.drop_last(), baked.drop_last(), render_layers);
        if nodes.last().traced(render_layers) && baked.last().emits() {
            before + nodes.last().object->0.placements() * nodes.last().object->0.faces().len()
        } else {
            before
        }
    }
}

proof fn lemma_object_emitters_len(object: Object3d, baked: BakedObject, n: nat)
    ensures
        object_emitters(object, baked, n).len() == n * object.faces().len(),
    decreases n,
{
    if n > 0 {
        lemma_object_emitters_len(object, baked, (n - 1) as nat);
        let f = object.faces().len();
        assert((n - 1) * f + f == n * f) by (nonlinear_arith)
            requires
                n > 0,
        ;
    } else {
        assert(0 * object.faces().len() == 0);
    }
}

/// A gathered scene has an emitter for every face of every placement of its emissive
/// objects, and no others.
pub proof fn law_emissive_faces_are_emitters(
    nodes: Seq<SceneNode3d>,
    baked: Seq<BakedObject>,
    render_layers: u32,
)
    ensures
        gathered(nodes, baked, render_layers).emitters.len() == emitter_total(
            nodes,
            baked,
            render_layers,
        ),
    decreases nodes.len(),
{
    if nodes.len() > 0 {
        law_emissive_faces_are_emitters(nodes.drop_last(), baked.drop_last(), render_layers);
        if nodes.last().traced(render_layers) {
            let object = nodes.last().object->0;
            lemma_object_emitters_len(object, baked.last(), object.placements());
        }
    }
}

proof fn lemma_untraced_nodes_store_nothing(nodes: Seq<SceneNode3d>, render_layers: u32, i: int)
    requires
        0 <= i < nodes.len(),
        !nodes[i].traced(render_layers),
    ensures
        mesh_table(nodes.remove(i), render_layers) == mesh_table(nodes, render_layers),
    decreases nodes.len(),
{
    if i == nodes.len() - 1 {
        assert(nodes.remove(i) =~= nodes.drop_last());
    } else {
        lemma_untraced_nodes_store_nothing(nodes.drop_last(), render_layers, i);
        assert(nodes.remove(i).drop_last() =~= nodes.drop_last().remove(i));
        assert(nodes.remove(i).last() == nodes.last());
    }
}

/// A node that is not traced contributes nothing to the scene.
pub proof fn law_untraced_nodes_are_not_gathered(
    nodes: Seq<SceneNode3d>,
    baked: Seq<BakedObject>,
    render_layers: u32,
    i: int,
)
    requires
        nodes.len() == baked.len(),
        0 <= i < nodes.len(),
        !nodes[i].traced(render_layers),
    ensures
        gathered(nodes.remove(i), baked.remove(i), render_layers) == gathered(
            nodes,
            baked,
            render_layers,
        ),
    decreases nodes.len(),
{
    if i == nodes.len() - 1 {
        assert(nodes.remove(i) =~= nodes.drop_last());
        assert(baked.remove(i) =~= baked.drop_last());
    } else {
        law_untraced_nodes_are_not_gathered(
            nodes.drop_last(),
            baked.drop_last(),
            render_layers,
            i,
        );
        lemma_untraced_nodes_store_nothing(nodes.drop_last(), render_layers, i);
        assert(nodes.remove(i).drop_last() =~= nodes.drop_last().remove(i));
        assert(baked.remove(i).drop_last() =~= baked.drop_last().remove(i));
        assert(nodes.remove(i).last() == nodes.last());
        assert(baked.remove(i).last() == baked.last());
    }
}

/// The placements of an object are those that its instances were gathered with.
pub open spec fn same_placements(
    nodes: Seq<SceneNode3d>,
    baked: Seq<BakedObject>,
    placed: Seq<Vec<Mat4>>,
    render_layers: u32,
) -> bool {
    forall|i: int, k: int|
        #![trigger placed[i]@[k]]
        0 <= i < nodes.len() && nodes[i].traced(render_layers) && !nodes[i].object->0.skinned()
            && 0 <= k < placed[i]@.len() ==> placed[i]@[k]
            == baked[i].instances@[k].object_to_world
}

/// Gathering the transforms alone gives the transforms of the gathered instances, in
/// the same order.
pub proof fn law_transforms_follow_the_instances(
    nodes: Seq<SceneNode3d>,
    baked: Seq<BakedObject>,
    placed: Seq<Vec<Mat4>>,
    render_layers: u32,
)
    requires
        nodes.len() == baked.len(),
        placeable(nodes, placed, render_layers),
        same_placements(nodes, baked, placed, render_layers),
    ensures
        gathered_transforms(nodes, placed, render_layers) == gathered(
            nodes,
            baked,
            render_layers,
        ).instances.map_values(|instance: RtInstance| instance.object_to_world),
    decreases nodes.len(),
{
    let f = |instance: RtInstance| instance.object_to_world;
    if nodes.len() > 0 {
        let n = nodes.len() - 1;
        let rest = nodes.drop_last();
        let rest_baked = baked.drop_last();
        let rest_placed = placed.drop_last();
        assert(placeable(rest, rest_placed, render_layers)) by {
            assert forall|i: int|
                0 <= i < rest.len() && (#[trigger] rest[i]).traced(render_layers)
                    && !rest[i].object->0.skinned() implies rest_placed[i]@.len()
                == rest[i].object->0.instances.count by {
                assert(rest[i] == nodes[i]);
            }
        }
        assert(same_placements(rest, rest_baked, rest_placed, render_layers)) by {
            assert forall|i: int, k: int|
                #![trigger rest_placed[i]@[k]]
                0 <= i < rest.len() && rest[i].traced(render_layers)
                    && !rest[i].object->0.skinned() && 0 <= k
                    < rest_placed[i]@.len() implies rest_placed[i]@[k]
                == rest_baked[i].instances@[k].object_to_world by {
                assert(rest[i] == nodes[i]);
                assert(placed[i]@[k] == rest_placed[i]@[k]);
            }
        }
        law_transforms_follow_the_instances(rest, rest_baked, rest_placed, render_layers);
        let before = gathered(rest, rest_baked, render_layers);
        let after = gathered(nodes, baked, render_layers);
        if nodes.last().traced(render_layers) {
            assert(nodes[n].traced(render_layers));
            let object = nodes.last().object->0;
            let transforms = gathered_transforms(nodes, placed, render_layers);
            if !object.skinned() {
                assert(placed[n]@.len() == object.placements());
                assert forall|k: int| 0 <= k < placed[n]@.len() implies #[trigger] placed[n]@[k]
                    == baked[n].instances@[k].object_to_world by {}
            }
            assert(transforms.len() == after.instances.len());
            assert forall|i: int| 0 <= i < transforms.len() implies transforms[i] == f(
                after.instances[i],
            ) by {
                if i < before.instances.len() {
                    assert(after.instances[i] == before.instances[i]);
                    assert(before.instances.map_values(f)[i] == f(before.instances[i]));
                } else if !object.skinned() {
                    let k = i - before.instances.len();
                    assert(transforms[i] == placed[n]@[k]);
                }
            }
            assert(transforms =~= after.instances.map_values(f));
        }
    } else {
        assert(gathered_transforms(nodes, placed, render_layers) =~= gathered(
            nodes,
            baked,
            render_layers,
        ).instances.map_values(f));
    }
}

/// The computed numbers of an object that moved: only its placements differ, and it
/// emits no light.
pub open spec fn moved_numbers(a: BakedObject, b: BakedObject) -> bool {
    &&& a.morphed == b.morphed
    &&& a.skinned == b.skinned
    &&& !a.emits()
    &&& !b.emits()
    &&& a.instances@.len() == b.instances@.len()
    &&& forall|k: int|
        0 <= k < a.instances@.len() ==> (#[trigger] a.instances@[k]).base_color
            == b.instances@[k].base_color
}

/// Every node of `b` is that of `a`, moved.
pub open spec fn moved_nodes(
    a: Seq<SceneNode3d>,
    b: Seq<SceneNode3d>,
    baked_a: Seq<BakedObject>,
    baked_b: Seq<BakedObject>,
    render_layers: u32,
) -> bool {
    &&& a.len() == b.len() == baked_a.len() == baked_b.len()
    &&& forall|i: int|
        0 <= i < a.len() ==> {
            &&& differ_in_transform(#[trigger] a[i], b[i])
            &&& a[i].traced(render_layers) ==> {
                &&& moved_numbers(baked_a[i], baked_b[i])
                &&& baked_a[i].instances@.len() == a[i].object->0.placements()
            }
        }
}

/// The placements of instances.
pub open spec fn placements_of(instances: Seq<RtInstance>) -> Seq<Placement> {
    instances.map_values(
        |instance: RtInstance|
            Placement {
                object_to_world: instance.object_to_world,
                world_to_object: instance.world_to_object,
            },
    )
}

proof fn lemma_moved_nodes_store_the_same(
    a: Seq<SceneNode3d>,
    b: Seq<SceneNode3d>,
    render_layers: u32,
)
    requires
        a.len() == b.len(),
        forall|i: int| 0 <= i < a.len() ==> differ_in_transform(#[trigger] a[i], b[i]),
    ensures
        mesh_table(a, render_layers) == mesh_table(b, render_layers),
    decreases a.len(),
{
    if a.len() > 0 {
        assert(differ_in_transform(a[a.len() - 1], b[a.len() - 1]));
        assert forall|i: int| 0 <= i < a.drop_last().len() implies differ_in_transform(
            #[trigger] a.drop_last()[i],
            b.drop_last()[i],
        ) by {
            assert(a.drop_last()[i] == a[i]);
        }
        lemma_moved_nodes_store_the_same(a.drop_last(), b.drop_last(), render_layers);
        let x = a.last();
        let y = b.last();
        assert(x.traced(render_layers) == y.traced(render_layers));
        if x.traced(render_layers) {
            assert(x.object->0.undeformed() == y.object->0.undeformed());
        }
    }
}

/// Where the nodes of a scene without emitters move, gathering it again changes the
/// placements of its instances and nothing else.
#[verifier::rlimit(60)]
#[verifier::spinoff_prover]
pub proof fn law_moving_changes_the_placements_alone(
    a: Seq<SceneNode3d>,
    b: Seq<SceneNode3d>,
    baked_a: Seq<BakedObject>,
    baked_b: Seq<BakedObject>,
    render_layers: u32,
)
    requires
        moved_nodes(a, b, baked_a, baked_b, render_layers),
    ensures
        ({
            let before = gathered(a, baked_a, render_layers);
            let after = gathered(b, baked_b, render_layers);
            &&& after.instances.len() == before.instances.len()
            &&& after == (SceneModel {
                instances: moved_instances(before.instances, placements_of(after.instances)),
                ..before
            })
        }),
    decreases a.len(),
{
    let before = gathered(a, baked_a, render_layers);
    let after = gathered(b, baked_b, render_layers);
    let moved = moved_instances(before.instances, placements_of(after.instances));
    if a.len() > 0 {
        let n = a.len() - 1;
        let rest_a = a.drop_last();
        let rest_b = b.drop_last();
        let rest_baked_a = baked_a.drop_last();
        let rest_baked_b = baked_b.drop_last();
        assert(moved_nodes(rest_a, rest_b, rest_baked_a, rest_baked_b, render_layers)) by {
            assert forall|i: int| 0 <= i < rest_a.len() implies {
                &&& differ_in_transform(#[trigger] rest_a[i], rest_b[i])
                &&& rest_a[i].traced(render_layers) ==> {
                    &&& moved_numbers(rest_baked_a[i], rest_baked_b[i])
                    &&& rest_baked_a[i].instances@.len() == rest_a[i].object->0.placements()
                }
            } by {
                assert(differ_in_transform(a[i], b[i]));
            }
        }
        law_moving_changes_the_placements_alone(
            rest_a,
            rest_b,
            rest_baked_a,
            rest_baked_b,
            render_layers,
        );
        assert forall|i: int| 0 <= i < rest_a.len() implies differ_in_transform(
            #[trigger] rest_a[i],
            rest_b[i],
        ) by {
            assert(differ_in_transform(a[i], b[i]));
        }
        lemma_moved_nodes_store_the_same(rest_a, rest_b, render_layers);
        let table = mesh_table(rest_a, render_layers);
        let head_a = gathered(rest_a, rest_baked_a, render_layers);
        let head_b = gathered(rest_b, rest_baked_b, render_layers);
        assert(differ_in_transform(a[n], b[n]));
        assert(a[n].traced(render_layers) == b[n].traced(render_layers));
        if a[n].traced(render_layers) {
            let x = a[n].object->0;
            let y = b[n].object->0;
            let shared = table.shared(x);
            assert(x.undeformed() == y.undeformed());
            assert(before == with_object(head_a, x, baked_a[n], shared));
            assert(after == with_object(head_b, y, baked_b[n], shared));
            assert(x.placements() == y.placements());
            assert(x.skinned() == y.skinned());
            assert forall|i: int| 0 <= i < x.coords().len() implies mesh_vertex(x, baked_a[n], i)
                == mesh_vertex(y, baked_b[n], i) by {}
            assert(before.vertices =~= after.vertices);
            assert(before.triangles =~= after.triangles);
            assert(before.ranges =~= after.ranges);
            assert(before.textures =~= after.textures);
            assert(before.emitters =~= after.emitters);
            assert forall|k: int| 0 <= k < x.placements() implies (
            #[trigger] baked_a[n].instances@[k]).base_color == baked_b[n].instances@[k].base_color
                by {}
            assert(before.materials =~= after.materials);
            assert forall|i: int| 0 <= i < after.instances.len() implies after.instances[i]
                == moved[i] by {
                if i < head_a.instances.len() {
                    assert(after.instances[i] == head_b.instances[i]);
                    assert(before.instances[i] == head_a.instances[i]);
                    assert(head_b.instances[i] == moved_instances(
                        head_a.instances,
                        placements_of(head_b.instances),
                    )[i]);
                }
            }
        } else {
            assert(before == head_a);
            assert(after == head_b);
        }
    }
    assert(after.instances =~= moved);
    assert(after =~= (SceneModel { instances: moved, ..before }));
}

/// Node `i` stores its mesh: it is traced, and no earlier traced node has the same mesh
/// where neither of the two is skinned or morphed.
pub open spec fn stores_its_mesh(nodes: Seq<SceneNode3d>, render_layers: u32, i: int) -> bool {
    let object = nodes[i].object->0;
    &&& nodes[i].traced(render_layers)
    &&& object.undeformed() ==> forall|k: int|
        0 <= k < i ==> !same_mesh(#[trigger] nodes[k], nodes[i], render_layers)
}

/// The two nodes are traced, draw their meshes as they are, and have the same mesh.
pub open spec fn same_mesh(a: SceneNode3d, b: SceneNode3d, render_layers: u32) -> bool {
    &&& a.traced(render_layers)
    &&& b.traced(render_layers)
    &&& a.object->0.undeformed()
    &&& b.object->0.undeformed()
    &&& a.object->0.mesh.handle == b.object->0.mesh.handle
}

/// How many of the nodes store their mesh.
pub open spec fn stored_count(nodes: Seq<SceneNode3d>, render_layers: u32) -> nat
    decreases nodes.len(),
{
    if nodes.len() == 0 {
        0
    } else {
        stored_count(nodes.drop_last(), render_layers) + if stores_its_mesh(
            nodes,
            render_layers,
            nodes.len() - 1,
        ) {
            1nat
        } else {
            0nat
        }
    }
}

/// The table knows the meshes of the undeformed traced nodes, and no others.
proof fn lemma_table_knows_the_meshes(nodes: Seq<SceneNode3d>, render_layers: u32, address: u64)
    ensures
        mesh_table(nodes, render_layers).ids.contains_key(address) <==> exists|k: int|
            0 <= k < nodes.len() && (#[trigger] nodes[k]).traced(render_layers)
                && nodes[k].object->0.undeformed() && nodes[k].object->0.mesh.handle.address
                == address,
    decreases nodes.len(),
{
    if nodes.len() > 0 {
        let rest = nodes.drop_last();
        let last = nodes.len() - 1;
        lemma_table_knows_the_meshes(rest, render_layers, address);
        if mesh_table(rest, render_layers).ids.contains_key(address) {
            let k = choose|k: int|
                0 <= k < rest.len() && (#[trigger] rest[k]).traced(render_layers)
                    && rest[k].object->0.undeformed() && rest[k].object->0.mesh.handle.address
                    == address;
            assert(nodes[k] == rest[k]);
        }
        assert(nodes[last] == nodes.last());
        if mesh_table(nodes, render_layers).ids.contains_key(address) && !mesh_table(
            rest,
            render_layers,
        ).ids.contains_key(address) {
            assert(nodes[last].traced(render_layers));
        }
        if exists|k: int|
            0 <= k < nodes.len() && (#[trigger] nodes[k]).traced(render_layers)
                && nodes[k].object->0.undeformed() && nodes[k].object->0.mesh.handle.address
                == address {
            let k = choose|k: int|
                0 <= k < nodes.len() && (#[trigger] nodes[k]).traced(render_layers)
                    && nodes[k].object->0.undeformed() && nodes[k].object->0.mesh.handle.address
                    == address;
            if k < last {
                assert(rest[k] == nodes[k]);
            }
        }
    }
}

/// The mesh that node `i` is placed with.
pub open spec fn mesh_of(nodes: Seq<SceneNode3d>, render_layers: u32, i: int) -> u32 {
    let table = mesh_table(nodes.take(i), render_layers);
    match table.shared(nodes[i].object->0) {
        Some(id) => id,
        None => table.meshes as u32,
    }
}

proof fn lemma_storing(nodes: Seq<SceneNode3d>, render_layers: u32, i: int)
    requires
        0 <= i < nodes.len(),
        nodes[i].traced(render_layers),
    ensures
        stores_its_mesh(nodes, render_layers, i) <==> mesh_table(
            nodes.take(i),
            render_layers,
        ).shared(nodes[i].object->0) is None,
{
    let object = nodes[i].object->0;
    let head = nodes.take(i);
    lemma_table_knows_the_meshes(head, render_layers, object.mesh.handle.address);
    if object.undeformed() {
        if mesh_table(head, render_layers).ids.contains_key(object.mesh.handle.address) {
            let k = choose|k: int|
                0 <= k < head.len() && (#[trigger] head[k]).traced(render_layers)
                    && head[k].object->0.undeformed() && head[k].object->0.mesh.handle.address
                    == object.mesh.handle.address;
            assert(nodes[k] == head[k]);
            assert(same_mesh(nodes[k], nodes[i], render_layers));
        } else {
            assert forall|k: int| 0 <= k < i implies !same_mesh(
                #[trigger] nodes[k],
                nodes[i],
                render_layers,
            ) by {
                assert(head[k] == nodes[k]);
            }
        }
    }
}

/// Each mesh is stored once: a gathered scene has as many meshes as there are nodes that
/// are the first with their mesh.
pub proof fn law_each_mesh_is_stored_once(
    nodes: Seq<SceneNode3d>,
    baked: Seq<BakedObject>,
    render_layers: u32,
)
    ensures
        gathered(nodes, baked, render_layers).ranges.len() == stored_count(nodes, render_layers),
    decreases nodes.len(),
{
    if nodes.len() > 0 {
        let rest = nodes.drop_last();
        law_each_mesh_is_stored_once(rest, baked.drop_last(), render_layers);
        if nodes.last().traced(render_layers) {
            assert(nodes.take(nodes.len() - 1) =~= rest);
            lemma_storing(nodes, render_layers, nodes.len() - 1);
        }
    }
}

/// The mesh of a table stays where it is.
proof fn lemma_table_grows(nodes: Seq<SceneNode3d>, render_layers: u32, i: int, address: u64)
    requires
        0 <= i <= nodes.len(),
        mesh_table(nodes.take(i), render_layers).ids.contains_key(address),
    ensures
        mesh_table(nodes, render_layers).ids.contains_key(address),
        mesh_table(nodes, render_layers).ids[address] == mesh_table(
            nodes.take(i),
            render_layers,
        ).ids[address],
    decreases nodes.len(),
{
    if i == nodes.len() {
        assert(nodes.take(i) =~= nodes);
    } else {
        assert(nodes.drop_last().take(i) =~= nodes.take(i));
        lemma_table_grows(nodes.drop_last(), render_layers, i, address);
    }
}

/// Two nodes with the same mesh, neither skinned nor morphed, are placed with one stored
/// mesh.
pub proof fn law_nodes_share_their_mesh(
    nodes: Seq<SceneNode3d>,
    render_layers: u32,
    i: int,
    k: int,
)
    requires
        0 <= i < k < nodes.len(),
        same_mesh(nodes[i], nodes[k], render_layers),
    ensures
        mesh_of(nodes, render_layers, i) == mesh_of(nodes, render_layers, k),
        !stores_its_mesh(nodes, render_layers, k),
{
    let address = nodes[i].object->0.mesh.handle.address;
    let head = nodes.take(i + 1);
    assert(head.drop_last() =~= nodes.take(i));
    assert(head.last() == nodes[i]);
    assert(mesh_table(head, render_layers).ids.contains_key(address));
    assert(mesh_table(head, render_layers).ids[address] == mesh_of(nodes, render_layers, i));
    assert(nodes.take(k).take(i + 1) =~= head);
    lemma_table_grows(nodes.take(k), render_layers, i + 1, address);
}

/// Where the handles identify the meshes: nodes that share a mesh have the same one.
pub open spec fn handles_identify_meshes(nodes: Seq<SceneNode3d>, render_layers: u32) -> bool {
    forall|i: int, k: int|
        #![trigger nodes[i], nodes[k]]
        0 <= i < nodes.len() && 0 <= k < nodes.len() && same_mesh(
            nodes[i],
            nodes[k],
            render_layers,
        ) ==> nodes[i].object->0.mesh == nodes[k].object->0.mesh
}

/// The stored mesh `id` is that of the object.
pub open spec fn holds_mesh(m: SceneModel, object: Object3d, baked: BakedObject, id: u32) -> bool {
    let range = m.ranges[id as int];
    &&& id < m.ranges.len()
    &&& range.vert_count == object.coords().len()
    &&& range.tri_count == object.faces().len()
    &&& range.vert_start + range.vert_count <= m.vertices.len()
    &&& range.tri_start + range.tri_count <= m.triangles.len()
    &&& forall|v: int|
        range.vert_start <= v < range.vert_start + range.vert_count ==> #[trigger] m.vertices[v]
            == mesh_vertex(object, baked, v - range.vert_start)
    &&& forall|t: int|
        range.tri_start <= t < range.tri_start + range.tri_count ==> #[trigger] m.triangles[t]
            == mesh_triangle(object.faces()[t - range.tri_start], range.vert_start)
}

/// Adding an object keeps the meshes that are stored.
proof fn lemma_stored_mesh_stays(
    before: SceneModel,
    last: Object3d,
    last_baked: BakedObject,
    shared: Option<u32>,
    object: Object3d,
    baked: BakedObject,
    id: u32,
)
    requires
        holds_mesh(before, object, baked, id),
    ensures
        holds_mesh(with_object(before, last, last_baked, shared), object, baked, id),
{
    let after = with_object(before, last, last_baked, shared);
    let range = before.ranges[id as int];
    assert(after.ranges[id as int] == range);
    assert forall|v: int|
        range.vert_start <= v < range.vert_start
            + range.vert_count implies #[trigger] after.vertices[v] == mesh_vertex(
        object,
        baked,
        v - range.vert_start,
    ) by {
        assert(after.vertices[v] == before.vertices[v]);
    }
    assert forall|t: int|
        range.tri_start <= t < range.tri_start
            + range.tri_count implies #[trigger] after.triangles[t] == mesh_triangle(
        object.faces()[t - range.tri_start],
        range.vert_start,
    ) by {
        assert(after.triangles[t] == before.triangles[t]);
    }
}

/// The mesh that a node is placed with holds the vertices and the triangles of the node's
/// own object, whether it is shared or not.
#[verifier::rlimit(60)]
#[verifier::spinoff_prover]
pub proof fn law_nodes_are_placed_with_their_own_mesh(
    nodes: Seq<SceneNode3d>,
    baked: Seq<BakedObject>,
    render_layers: u32,
    i: int,
)
    requires
        gatherable(nodes, baked, render_layers),
        handles_identify_meshes(nodes, render_layers),
        in_limits(gathered(nodes, baked, render_layers)),
        0 <= i < nodes.len(),
        nodes[i].traced(render_layers),
    ensures
        holds_mesh(
            gathered(nodes, baked, render_layers),
            nodes[i].object->0,
            baked[i],
            mesh_of(nodes, render_layers, i),
        ),
    decreases nodes.len(), i,
{
    let n = nodes.len() - 1;
    let rest = nodes.drop_last();
    let rest_baked = baked.drop_last();
    let before = gathered(rest, rest_baked, render_layers);
    let table = mesh_table(rest, render_layers);
    lemma_prefix_is_gatherable(nodes, baked, render_layers);
    if nodes.last().traced(render_layers) {
        lemma_limits_of_prefix(
            before,
            nodes.last().object->0,
            baked.last(),
            table.shared(nodes.last().object->0),
        );
    }
    let object = nodes[i].object->0;
    if i < n {
        law_nodes_are_placed_with_their_own_mesh(rest, rest_baked, render_layers, i);
        assert(rest.take(i) =~= nodes.take(i));
        if nodes.last().traced(render_layers) {
            lemma_stored_mesh_stays(
                before,
                nodes.last().object->0,
                baked.last(),
                table.shared(nodes.last().object->0),
                object,
                baked[i],
                mesh_of(nodes, render_layers, i),
            );
        }
    } else {
        assert(nodes.take(i) =~= rest);
        lemma_stored_meshes(rest, rest_baked, render_layers);
        let after = gathered(nodes, baked, render_layers);
        if table.shared(object) is None {
            let range = after.ranges[before.ranges.len() as int];
            assert(mesh_of(nodes, render_layers, i) == before.ranges.len());
            assert(range.vert_start == before.vertices.len());
            assert(range.tri_start == before.triangles.len());
        } else {
            let address = object.mesh.handle.address;
            lemma_table_knows_the_meshes(rest, render_layers, address);
            let k = choose|k: int|
                0 <= k < rest.len() && (#[trigger] rest[k]).traced(render_layers)
                    && rest[k].object->0.undeformed() && rest[k].object->0.mesh.handle.address
                    == address;
            assert(nodes[k] == rest[k]);
            assert(same_mesh(nodes[k], nodes[i], render_layers));
            assert(nodes[k].object->0.mesh == object.mesh);
            law_nodes_share_their_mesh(nodes, render_layers, k, i);
            law_nodes_are_placed_with_their_own_mesh(nodes, baked, render_layers, k);
            let other = nodes[k].object->0;
            let id = mesh_of(nodes, render_layers, i);
            assert(baked[k].fits(other) && baked[i].fits(object));
            assert forall|v: int| mesh_vertex(other, baked[k], v) == mesh_vertex(
                object,
                baked[i],
                v,
            ) by {}
            assert(holds_mesh(after, other, baked[k], id));
            let range = after.ranges[id as int];
            assert forall|v: int|
                range.vert_start <= v < range.vert_start
                    + range.vert_count implies #[trigger] after.vertices[v] == mesh_vertex(
                object,
                baked[i],
                v - range.vert_start,
            ) by {
                assert(mesh_vertex(other, baked[k], v - range.vert_start) == mesh_vertex(
                    object,
                    baked[i],
                    v - range.vert_start,
                ));
            }
        }
    }
}

proof fn lemma_prefix_is_gatherable(
    nodes: Seq<SceneNode3d>,
    baked: Seq<BakedObject>,
    render_layers: u32,
)
    requires
        nodes.len() > 0,
        gatherable(nodes, baked, render_layers),
        handles_identify_meshes(nodes, render_layers),
    ensures
        gatherable(nodes.drop_last(), baked.drop_last(), render_layers),
        handles_identify_meshes(nodes.drop_last(), render_layers),
{
    let rest = nodes.drop_last();
    let rest_baked = baked.drop_last();
    assert forall|i: int|
        0 <= i < rest.len() && (#[trigger] rest[i]).traced(render_layers) implies {
        &&& rest_baked[i].fits(rest[i].object->0)
        &&& mesh_table(rest.take(i), render_layers).shared(rest[i].object->0) is None
            ==> indices_fit(rest, render_layers, i)
    } by {
        assert(rest[i] == nodes[i]);
        assert(rest.take(i) =~= nodes.take(i));
    }
    assert forall|i: int, k: int|
        #![trigger rest[i], rest[k]]
        0 <= i < rest.len() && 0 <= k < rest.len() && same_mesh(
            rest[i],
            rest[k],
            render_layers,
        ) implies rest[i].object->0.mesh == rest[k].object->0.mesh by {
        assert(rest[i] == nodes[i] && rest[k] == nodes[k]);
    }
}

/// The placements of node `i` are instances of the mesh that the node is placed with.
pub proof fn law_placements_refer_to_the_mesh(
    nodes: Seq<SceneNode3d>,
    baked: Seq<BakedObject>,
    render_layers: u32,
    i: int,
    k: int,
)
    requires
        nodes.len() == baked.len(),
        0 <= i < nodes.len(),
        nodes[i].traced(render_layers),
        0 <= k < nodes[i].object->0.placements(),
    ensures
        ({
            let first = gathered(nodes.take(i), baked.take(i), render_layers).instances.len();
            let scene = gathered(nodes, baked, render_layers);
            &&& first + k < scene.instances.len()
            &&& scene.instances[first + k].mesh_id == mesh_of(nodes, render_layers, i)
        }),
    decreases nodes.len(),
{
    let rest = nodes.drop_last();
    let before = gathered(rest, baked.drop_last(), render_layers);
    let scene = gathered(nodes, baked, render_layers);
    if i == nodes.len() - 1 {
        assert(nodes.take(i) =~= rest);
        assert(baked.take(i) =~= baked.drop_last());
        lemma_stored_meshes(rest, baked.drop_last(), render_layers);
        let object = nodes[i].object->0;
        assert(scene.instances[before.instances.len() + k] == object_instance(
            object,
            baked[i],
            k,
            mesh_of(nodes, render_layers, i),
            (before.materials.len() + k) as u32,
        ));
    } else {
        law_placements_refer_to_the_mesh(rest, baked.drop_last(), render_layers, i, k);
        assert(rest.take(i) =~= nodes.take(i));
        assert(baked.drop_last().take(i) =~= baked.take(i));
        let first = gathered(nodes.take(i), baked.take(i), render_layers).instances.len();
        assert(scene.instances[first + k] == before.instances[first + k]);
    }
}

} // verus!
