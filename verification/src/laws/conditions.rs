//! Every ordinary scene can be gathered, built and moved.

use crate::bake::{face_within, nonzero, BakedObject};
use crate::float::F32;
use crate::gather::{face_fits, gatherable, gathered, indices_fit, mesh_table, placeable};
use crate::gpu_scene::{
    blas_nodes, buildable, compute_desc, compute_descs, gpu_model, lemma_moving_keeps_meshes,
    top_capacity, triangles_within, Placement, RayBackend, SceneBvh, TopBvh,
};
use crate::laws::gather::{in_limits, law_gathered_scene_is_consistent};
use crate::laws::gpu::lemma_mesh_in_concatenation;
use crate::records::RtScene;
use crate::scene::{Mat4, Object3d, SceneNode3d};
use vstd::prelude::*;

verus! {

/// The computed numbers have the shape of the object: blended vertices where it is morphed,
/// skinned ones where it is skinned, one placement per copy, and the world positions of every
/// vertex where it emits light.
pub open spec fn shaped_like(baked: BakedObject, object: Object3d) -> bool {
    let n = object.mesh.coords->0@.len();
    let copies = if object.skinned() {
        1nat
    } else {
        object.instances.count as nat
    };
    &&& object.morphs() ==> {
        &&& baked.morphed is Some
        &&& baked.morphed->0.positions@.len() == n
        &&& object.mesh.morph->0.normals is Some ==> baked.morphed->0.normals is Some
            && baked.morphed->0.normals->0@.len() >= n
        &&& object.mesh.morph->0.normals is None ==> baked.morphed->0.normals is None
    }
    &&& !object.morphs() ==> baked.morphed is None
    &&& object.skinned() ==> baked.skinned is Some && baked.skinned->0@.len() == n
    &&& !object.skinned() ==> baked.skinned is None
    &&& baked.instances@.len() == copies
    &&& (F32 { bits: 0x38d1_b717 }).less(baked.emissive_sum) && !object.skinned() ==> forall|k: int|
        0 <= k < copies ==> (#[trigger] baked.instances@[k]).world_positions@.len() == n
}

/// The faces refer to vertices of the mesh.
pub open spec fn faces_in_mesh(object: Object3d) -> bool {
    forall|j: int|
        0 <= j < object.mesh.faces->0@.len() ==> {
            let face = #[trigger] object.mesh.faces->0@[j];
            let n = object.mesh.coords->0@.len();
            face[0] < n && face[1] < n && face[2] < n
        }
}

/// All vertices of the traced nodes.
pub open spec fn vertex_sum(nodes: Seq<SceneNode3d>, render_layers: u32) -> nat
    decreases nodes.len(),
{
    if nodes.len() == 0 {
        0
    } else {
        vertex_sum(nodes.drop_last(), render_layers) + if nodes.last().traced(render_layers) {
            nodes.last().object->0.mesh.coords->0@.len()
        } else {
            0
        }
    }
}

proof fn lemma_vertices_of_prefix(nodes: Seq<SceneNode3d>, render_layers: u32, i: int)
    requires
        0 <= i < nodes.len(),
        nodes[i].traced(render_layers),
    ensures
        mesh_table(nodes.take(i), render_layers).vertices
            + nodes[i].object->0.mesh.coords->0@.len() <= vertex_sum(nodes, render_layers),
    decreases nodes.len(),
{
    let rest = nodes.drop_last();
    if i == nodes.len() - 1 {
        assert(nodes.take(i) =~= rest);
        lemma_vertices_stored(rest, render_layers);
    } else {
        lemma_vertices_of_prefix(rest, render_layers, i);
        assert(rest.take(i) =~= nodes.take(i));
    }
}

proof fn lemma_vertices_stored(nodes: Seq<SceneNode3d>, render_layers: u32)
    ensures
        mesh_table(nodes, render_layers).vertices <= vertex_sum(nodes, render_layers),
    decreases nodes.len(),
{
    if nodes.len() > 0 {
        lemma_vertices_stored(nodes.drop_last(), render_layers);
    }
}

/// Nodes can be gathered where their faces refer to their own vertices, their vertices can be
/// counted in 32 bits, and every traced one has computed numbers of its shape.
pub proof fn law_ordinary_scenes_can_be_gathered(
    nodes: Seq<SceneNode3d>,
    baked: Seq<BakedObject>,
    render_layers: u32,
)
    requires
        nodes.len() == baked.len(),
        vertex_sum(nodes, render_layers) <= u32::MAX,
        forall|i: int|
            0 <= i < nodes.len() && (#[trigger] nodes[i]).traced(render_layers) ==> {
                &&& shaped_like(baked[i], nodes[i].object->0)
                &&& faces_in_mesh(nodes[i].object->0)
            },
    ensures
        gatherable(nodes, baked, render_layers),
{
    assert forall|i: int| 0 <= i < nodes.len() && (#[trigger] nodes[i]).traced(
        render_layers,
    ) implies {
        &&& baked[i].fits(nodes[i].object->0)
        &&& mesh_table(nodes.take(i), render_layers).shared(nodes[i].object->0) is None
            ==> indices_fit(nodes, render_layers, i)
    } by {
        lemma_vertices_of_prefix(nodes, render_layers, i);
        let object = nodes[i].object->0;
        let n = object.coords().len();
        assert forall|j: int| 0 <= j < object.faces().len() implies face_within(
            #[trigger] object.faces()[j],
            n,
        ) by {
            assert(object.faces()[j] == object.mesh.faces->0@[j]);
        }
        let start = mesh_table(nodes.take(i), render_layers).vertices as u32;
        assert forall|j: int| 0 <= j < object.faces().len() implies face_fits(
            #[trigger] object.faces()[j],
            start,
        ) by {
            assert(face_within(object.faces()[j], n));
        }
        if baked[i].emits() && !object.skinned() {
            assert forall|k: int| 0 <= k < baked[i].instances@.len() implies (
            #[trigger] baked[i].instances@[k]).world_positions@.len() == n by {}
        }
    }
}

/// Placements can be gathered where there is one per copy of every traced node that is not
/// skinned.
pub proof fn law_ordinary_placements_can_be_gathered(
    nodes: Seq<SceneNode3d>,
    placed: Seq<Vec<Mat4>>,
    render_layers: u32,
)
    ensures
        placeable(nodes, placed, render_layers) <==> {
            &&& nodes.len() == placed.len()
            &&& forall|i: int|
                0 <= i < nodes.len() && (#[trigger] nodes[i]).traced(render_layers)
                    && !nodes[i].object->0.skinned() ==> placed[i]@.len()
                    == nodes[i].object->0.instances.count
        },
{
}

/// A gathered scene can be laid out for the compute backend with one BVH per mesh and a top
/// level of one leaf per instance and at most twice as many nodes.
pub proof fn law_gathered_scenes_can_be_built<N>(
    nodes: Seq<SceneNode3d>,
    baked: Seq<BakedObject>,
    render_layers: u32,
    scene: RtScene,
    bvh: SceneBvh<N>,
)
    requires
        nodes.len() == baked.len(),
        scene.model() == gathered(nodes, baked, render_layers),
        in_limits(scene.model()),
        bvh.meshes@.len() == scene.mesh_ranges@.len(),
        bvh.top.order@.len() == scene.instances@.len(),
        forall|i: int|
            0 <= i < bvh.top.order@.len() ==> #[trigger] bvh.top.order@[i]
                < scene.instances@.len(),
        bvh.top.nodes@.len() <= 2 * scene.instances@.len() || bvh.top.nodes@.len() <= 2,
        2 * scene.instances@.len() + 2 + blas_nodes(bvh.meshes@).len() <= u32::MAX,
    ensures
        scene.instances@.len() > 0 || bvh.top.nodes@.len() <= 2 ==> buildable(
            scene,
            RayBackend::Software,
            bvh,
        ),
{
    law_gathered_scene_is_consistent(nodes, baked, render_layers, scene);
    let instances = scene.instances@;
    let descs = compute_descs(bvh.meshes@);
    let capacity = top_capacity(instances.len()) as u32;
    assert forall|i: int| 0 <= i < instances.len() implies capacity + descs[(
    #[trigger] instances[i]).mesh_id as int].node_offset <= u32::MAX by {
        let m = instances[i].mesh_id as int;
        assert(instances[i].mesh_id < scene.mesh_ranges@.len());
        lemma_mesh_in_concatenation(bvh.meshes@, m);
        assert(descs[m] == compute_desc(bvh.meshes@, m));
    }
}

/// A gathered scene can be laid out for the hardware backend where the indices of its
/// triangles can be counted in 32 bits.
pub proof fn law_gathered_scenes_can_be_built_for_hardware<N>(
    nodes: Seq<SceneNode3d>,
    baked: Seq<BakedObject>,
    render_layers: u32,
    scene: RtScene,
    bvh: SceneBvh<N>,
)
    requires
        nodes.len() == baked.len(),
        scene.model() == gathered(nodes, baked, render_layers),
        in_limits(scene.model()),
        3 * scene.mesh_triangles@.len() <= u32::MAX,
    ensures
        buildable(scene, RayBackend::Hardware, bvh),
{
    law_gathered_scene_is_consistent(nodes, baked, render_layers, scene);
    assert forall|m: int| 0 <= m < scene.mesh_ranges@.len() implies (
    #[trigger] scene.mesh_ranges@[m]).tri_start * 3 <= u32::MAX && scene.mesh_ranges@[m].tri_count
        * 3 <= u32::MAX by {
        let range = scene.mesh_ranges@[m];
        assert(triangles_within(range, scene.mesh_triangles@.len()));
    }
    if scene.mesh_ranges@.len() == 0 {
        assert forall|i: int| 0 <= i < scene.instances@.len() implies (
        #[trigger] scene.instances@[i]).mesh_id < 1 by {
            assert(scene.instances@[i].mesh_id < scene.mesh_ranges@.len());
        }
    }
}

/// A scene that was built takes every update with one placement per instance and, on the
/// compute backend, a top level of one leaf per instance; and it takes the next one as well.
pub proof fn law_built_scenes_take_updates<N>(
    scene: RtScene,
    backend: RayBackend,
    bvh: SceneBvh<N>,
    empty_node: N,
    placements: Seq<Placement>,
    top: TopBvh<N>,
    xform_hash: u64,
)
    requires
        buildable(scene, backend, bvh),
        top.order@.len() == scene.instances@.len(),
        forall|i: int|
            0 <= i < top.order@.len() ==> #[trigger] top.order@[i] < scene.instances@.len(),
    ensures
        ({
            let built = gpu_model(scene, backend, bvh, empty_node);
            let updated = built.updated(placements, top, empty_node, xform_hash);
            &&& built.takes(placements.len(), top)
            &&& updated.takes(placements.len(), top)
        }),
{
    let built = gpu_model(scene, backend, bvh, empty_node);
    let updated = built.updated(placements, top, empty_node, xform_hash);
    lemma_moving_keeps_meshes(built.template_instances, placements);
    if backend is Software {
        assert(built.bvh.len() >= built.tlas_capacity);
        assert(built.consistent());
    } else {
        assert(built.consistent());
    }
    assert(updated.consistent());
}

/// An object emits light where its emissive components add up to more than the threshold.
pub proof fn law_what_emits(baked: BakedObject)
    ensures
        baked.emits() <==> (F32 { bits: 0x38d1_b717 }).less(baked.emissive_sum),
{
}

/// An object can be morphed where its deltas have an entry for every vertex of every target,
/// and its normals, if it has any, one for every vertex.
pub proof fn law_full_deltas_can_be_blended(object: Object3d)
    requires
        object.mesh.coords is Some,
        object.mesh.morph is Some,
        ({
            let morph = object.mesh.morph->0;
            let full = morph.target_count * morph.vertex_count;
            &&& morph.positions is Some && morph.positions->0@.len() >= full
            &&& morph.normals is Some ==> morph.normals->0@.len() >= full
            &&& object.mesh.normals is Some ==> object.mesh.normals->0@.len()
                >= object.mesh.coords->0@.len()
        }),
    ensures
        object.has_deltas(),
        object.morph_covered(),
{
    let morph = object.mesh.morph->0;
    assert forall|t: int|
        0 <= t < object.weighted_targets() && nonzero(
            #[trigger] object.data.morph_weights@[t],
        ) implies {
        let end = t * morph.vertex_count + object.morphed_vertices();
        &&& end <= morph.positions->0@.len()
        &&& morph.normals matches Some(normals) ==> end <= normals@.len()
        &&& object.normals_covered()
    } by {
        assert(t * morph.vertex_count + morph.vertex_count <= morph.target_count
            * morph.vertex_count) by (nonlinear_arith)
            requires
                0 <= t < morph.target_count,
                morph.vertex_count >= 0,
        ;
    }
}

} // verus!
