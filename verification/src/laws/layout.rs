//! What the layout of a scene holds, field by field.

use crate::float::F32;
use crate::gpu_scene::{
    blas_nodes, buildable, compute_desc, compute_descs, gpu_model, mesh_blas, moved_instances,
    ordered_triangles, padded, scene_blas, scene_boxes, tlas_entries, top_capacity,
    triangle_indices, GpuModel, Placement, RayBackend, SceneBvh, TlasEntry, TopBvh,
};
use crate::laws::gpu::lemma_mesh_in_concatenation;
use crate::laws::scene::begins;
use crate::records::{RtInstance, RtScene};
use crate::scene::Mat4;
use vstd::prelude::*;

verus! {

/// The instance of leaf `i` is the one that the leaf names: it keeps both its transforms,
/// its mesh and its material.
pub proof fn law_leaves_keep_their_instances<N>(
    scene: RtScene,
    bvh: SceneBvh<N>,
    empty_node: N,
    i: int,
)
    requires
        buildable(scene, RayBackend::Software, bvh),
        0 <= i < scene.instances@.len(),
    ensures
        ({
            let gpu = gpu_model(scene, RayBackend::Software, bvh, empty_node);
            let laid = gpu.instances[i];
            let source = scene.instances@[bvh.top.order@[i] as int];
            &&& gpu.instances.len() == scene.instances@.len()
            &&& bvh.top.order@[i] < scene.instances@.len()
            &&& laid.world_to_object == source.world_to_object
            &&& laid.object_to_world == source.object_to_world
            &&& laid.mesh_id == source.mesh_id
            &&& laid.material_id == source.material_id
        }),
{
    assert(bvh.top.order@[i] < scene.instances@.len());
}

/// The hardware backend keeps the instances as they are.
pub proof fn law_hardware_keeps_the_instances<N>(
    scene: RtScene,
    bvh: SceneBvh<N>,
    empty_node: N,
    i: int,
)
    requires
        0 <= i < scene.instances@.len(),
    ensures
        ({
            let gpu = gpu_model(scene, RayBackend::Hardware, bvh, empty_node);
            let laid = gpu.instances[i];
            let source = scene.instances@[i];
            &&& gpu.instances.len() == scene.instances@.len()
            &&& laid.world_to_object == source.world_to_object
            &&& laid.object_to_world == source.object_to_world
            &&& laid.mesh_id == source.mesh_id
            &&& laid.material_id == source.material_id
        }),
{
}

/// The entry places the mesh as the matrix does: row by row, without the last.
pub open spec fn entry_places(entry: TlasEntry, m: Mat4) -> bool {
    forall|r: int, c: int|
        #![trigger m@[c]@[r]]
        0 <= r < 3 && 0 <= c < 4 ==> entry.transform@[4 * r + c] == m@[c]@[r]
}

proof fn lemma_entry(instances: Seq<RtInstance>, i: int)
    requires
        0 <= i < instances.len() <= u32::MAX,
    ensures
        ({
            let entry = tlas_entries(instances)[i];
            &&& tlas_entries(instances).len() == instances.len()
            &&& entry_places(entry, instances[i].object_to_world)
            &&& entry.blas == instances[i].mesh_id
            &&& entry.custom_index == i
            &&& entry.mask == 0xff
        }),
{
    let m = instances[i].object_to_world;
    let entry = tlas_entries(instances)[i];
    let rows = entry.transform@;
    assert(rows[0] == m@[0]@[0] && rows[1] == m@[1]@[0] && rows[2] == m@[2]@[0] && rows[3]
        == m@[3]@[0]);
    assert(rows[4] == m@[0]@[1] && rows[5] == m@[1]@[1] && rows[6] == m@[2]@[1] && rows[7]
        == m@[3]@[1]);
    assert(rows[8] == m@[0]@[2] && rows[9] == m@[1]@[2] && rows[10] == m@[2]@[2] && rows[11]
        == m@[3]@[2]);
    assert forall|r: int, c: int| #![trigger m@[c]@[r]] 0 <= r < 3 && 0 <= c < 4 implies rows[4 * r
        + c] == m@[c]@[r] by {
        assert(r == 0 || r == 1 || r == 2);
        assert(c == 0 || c == 1 || c == 2 || c == 3);
    }
}

/// Every instance has an entry in the hardware backend's top level that is visible, places
/// the instance's mesh where the instance is, and reports the instance.
pub proof fn law_hardware_entry_of_an_instance<N>(
    scene: RtScene,
    bvh: SceneBvh<N>,
    empty_node: N,
    i: int,
)
    requires
        0 <= i < scene.instances@.len() <= u32::MAX,
    ensures
        ({
            let gpu = gpu_model(scene, RayBackend::Hardware, bvh, empty_node);
            let entry = gpu.tlas->0[i];
            &&& gpu.tlas is Some
            &&& gpu.tlas->0.len() == scene.instances@.len()
            &&& entry_places(entry, scene.instances@[i].object_to_world)
            &&& entry.blas == scene.instances@[i].mesh_id
            &&& entry.custom_index == i
            &&& entry.mask == 0xff
        }),
{
    lemma_entry(scene.instances@, i);
}

/// A hardware scene without instances has one entry, which is the identity, one structure of
/// one triangle for a scene without meshes, and three indices for one without triangles; it
/// never has fewer than three vertices.
pub proof fn law_empty_hardware_scene_is_valid<N>(
    scene: RtScene,
    bvh: SceneBvh<N>,
    empty_node: N,
)
    ensures
        ({
            let gpu = gpu_model(scene, RayBackend::Hardware, bvh, empty_node);
            let entry = gpu.tlas->0[0];
            &&& scene.instances@.len() == 0 ==> {
                &&& gpu.tlas is Some
                &&& gpu.tlas->0.len() == 1
                &&& entry.blas == 0
                &&& entry.custom_index == 0
                &&& entry.mask == 0xff
                &&& entry.transform@[0].bits == 0x3f80_0000
                &&& entry.transform@[5].bits == 0x3f80_0000
                &&& entry.transform@[10].bits == 0x3f80_0000
                &&& forall|k: int|
                    0 <= k < 12 && k != 0 && k != 5 && k != 10 ==> (
                    #[trigger] entry.transform@[k]).bits == 0
            }
            &&& scene.mesh_ranges@.len() == 0 ==> {
                &&& gpu.blas.len() == 1
                &&& gpu.blas[0].first_index == 0
                &&& gpu.blas[0].index_count == 3
            }
            &&& scene.mesh_triangles@.len() == 0 ==> gpu.indices.len() == 3
            &&& gpu.vertices.len() >= 3
            &&& begins(gpu.vertices, scene.mesh_vertices@)
            &&& forall|v: int|
                scene.mesh_vertices@.len() <= v < gpu.vertices.len() ==> {
                    let filler = #[trigger] gpu.vertices[v];
                    &&& filler.u.bits == 0
                    &&& filler.v.bits == 0
                    &&& filler.position@[0].bits == 0
                    &&& filler.position@[1].bits == 0
                    &&& filler.position@[2].bits == 0
                }
            &&& scene.mesh_vertices@.len() >= 3 ==> gpu.vertices.len()
                == scene.mesh_vertices@.len()
        }),
{
    let gpu = gpu_model(scene, RayBackend::Hardware, bvh, empty_node);
    if scene.instances@.len() == 0 {
        let rows = gpu.tlas->0[0].transform@;
        assert(rows[1].bits == 0 && rows[2].bits == 0 && rows[3].bits == 0 && rows[4].bits == 0);
        assert(rows[6].bits == 0 && rows[7].bits == 0 && rows[8].bits == 0 && rows[9].bits == 0);
        assert(rows[11].bits == 0);
        assert forall|k: int| 0 <= k < 12 && k != 0 && k != 5 && k != 10 implies (
        #[trigger] rows[k]).bits == 0 by {
            assert(k == 1 || k == 2 || k == 3 || k == 4 || k == 6 || k == 7 || k == 8 || k == 9
                || k == 11);
        }
    }
}

/// Both backends keep the materials, lights, emitters and textures of the scene, count its
/// triangles, lights and emitters, carry its hashes, and know whether some material is
/// translucent or casts no shadows.
pub proof fn law_layout_keeps_the_scene<N>(
    scene: RtScene,
    backend: RayBackend,
    bvh: SceneBvh<N>,
    empty_node: N,
)
    ensures
        ({
            let gpu = gpu_model(scene, backend, bvh, empty_node);
            &&& gpu.backend == backend
            &&& gpu.materials == scene.materials@
            &&& gpu.lights == scene.lights@
            &&& gpu.emitters == scene.emitters@
            &&& gpu.textures == scene.textures@
            &&& gpu.template_instances == scene.instances@
            &&& gpu.mesh_aabbs == scene_boxes(scene)
            &&& begins(gpu.vertices, scene.mesh_vertices@)
            &&& backend is Software ==> gpu.vertices == scene.mesh_vertices@
            &&& backend is Hardware ==> gpu.triangles == scene.mesh_triangles@
            &&& scene.mesh_triangles@.len() <= u32::MAX ==> gpu.num_triangles
                == scene.mesh_triangles@.len()
            &&& scene.lights@.len() <= u32::MAX ==> gpu.num_lights == scene.lights@.len()
            &&& scene.emitters@.len() <= u32::MAX ==> gpu.num_emitters == scene.emitters@.len()
            &&& gpu.geom_hash == scene.geom_hash
            &&& gpu.xform_hash == scene.xform_hash
            &&& gpu.has_translucent <==> exists|i: int|
                0 <= i < scene.materials@.len() && (
                #[trigger] scene.materials@[i]).base_color@[3].less(F32 { bits: 0x3f80_0000 })
            &&& gpu.has_non_shadow_caster <==> exists|i: int|
                0 <= i < scene.materials@.len() && (
                #[trigger] scene.materials@[i]).casts_shadows == 0
        }),
{
}

/// The compute backend's node buffer begins with the top level, is filled up to twice as
/// many nodes as there are instances, at least two, and goes on with the nodes of the
/// meshes: those of mesh `m` lie where its descriptor says, and so do its triangles.
pub proof fn law_nodes_lie_in_their_regions<N>(
    scene: RtScene,
    bvh: SceneBvh<N>,
    empty_node: N,
    m: int,
    j: int,
    t: int,
)
    requires
        buildable(scene, RayBackend::Software, bvh),
        0 <= m < bvh.meshes@.len(),
        0 <= j < bvh.meshes@[m].nodes@.len(),
        0 <= t < bvh.meshes@[m].triangles@.len(),
        blas_nodes(bvh.meshes@).len() <= u32::MAX,
        ordered_triangles(bvh.meshes@).len() <= u32::MAX,
    ensures
        ({
            let gpu = gpu_model(scene, RayBackend::Software, bvh, empty_node);
            let n = scene.instances@.len();
            let capacity = gpu.tlas_capacity as int;
            &&& capacity == (if n == 0 {
                2
            } else {
                2 * n
            })
            &&& gpu.bvh.len() == capacity + blas_nodes(bvh.meshes@).len()
            &&& begins(gpu.bvh, bvh.top.nodes@)
            &&& forall|k: int|
                bvh.top.nodes@.len() <= k < capacity ==> #[trigger] gpu.bvh[k] == empty_node
            &&& gpu.meshes.len() == bvh.meshes@.len()
            &&& gpu.mesh_descs == gpu.meshes
            &&& gpu.bvh[capacity + gpu.meshes[m].node_offset + j] == bvh.meshes@[m].nodes@[j]
            &&& gpu.triangles[gpu.meshes[m].tri_offset + t] == bvh.meshes@[m].triangles@[t]
        }),
{
    let gpu = gpu_model(scene, RayBackend::Software, bvh, empty_node);
    let capacity = top_capacity(scene.instances@.len());
    lemma_mesh_in_concatenation(bvh.meshes@, m);
    assert(compute_descs(bvh.meshes@)[m] == compute_desc(bvh.meshes@, m));
    assert(padded(bvh.top.nodes@, capacity, empty_node).len() == capacity);
    let at = gpu.meshes[m].node_offset + j;
    assert(gpu.bvh[capacity + at] == blas_nodes(bvh.meshes@)[at]);
    assert(bvh.meshes@[m].nodes@[j] == blas_nodes(bvh.meshes@)[at]);
    assert(bvh.meshes@[m].triangles@[t] == ordered_triangles(
        bvh.meshes@,
    )[gpu.meshes[m].tri_offset + t]);
}

/// The hardware backend's descriptor of a mesh says where the mesh's triangles lie.
pub proof fn law_hardware_triangles_stay_where_they_are<N>(
    scene: RtScene,
    bvh: SceneBvh<N>,
    empty_node: N,
    m: int,
)
    requires
        0 <= m < scene.mesh_ranges@.len(),
    ensures
        ({
            let gpu = gpu_model(scene, RayBackend::Hardware, bvh, empty_node);
            &&& gpu.meshes.len() == scene.mesh_ranges@.len()
            &&& gpu.mesh_descs == gpu.meshes
            &&& gpu.meshes[m].tri_offset == scene.mesh_ranges@[m].tri_start
            &&& gpu.meshes[m].node_offset == 0
            &&& gpu.bvh.len() == 1
            &&& gpu.bvh[0] == empty_node
        }),
{
}

/// An update is applied exactly where it brings a placement for every instance, and where
/// the top level fits its region (compute) or there is one at all (hardware).
pub proof fn law_which_updates_are_applied<N>(gpu: GpuModel<N>, count: nat, nodes: nat)
    ensures
        gpu.updatable(count, nodes) <==> {
            &&& count == gpu.template_instances.len()
            &&& gpu.backend is Software ==> nodes <= gpu.tlas_capacity
            &&& gpu.backend is Hardware ==> gpu.tlas is Some
        },
{
}

/// An update that is applied puts every instance where its placement says, and leaves its
/// mesh and material alone. In the compute backend's buffer leaf `i` is the instance that the
/// new top level names, with the bases of its mesh.
pub proof fn law_updated_instances_are_where_they_should<N>(
    before: GpuModel<N>,
    placements: Seq<Placement>,
    top: TopBvh<N>,
    empty_node: N,
    xform_hash: u64,
    i: int,
)
    requires
        before.takes(placements.len(), top),
        before.updatable(placements.len(), top.nodes@.len()),
        0 <= i < placements.len() <= u32::MAX,
    ensures
        ({
            let after = before.updated(placements, top, empty_node, xform_hash);
            let kept = before.template_instances[i];
            let moved = after.template_instances[i];
            &&& after.template_instances.len() == before.template_instances.len()
            &&& moved.object_to_world == placements[i].object_to_world
            &&& moved.world_to_object == placements[i].world_to_object
            &&& moved.mesh_id == kept.mesh_id
            &&& moved.material_id == kept.material_id
            &&& after.xform_hash == xform_hash
            &&& before.backend is Software ==> {
                let source = top.order@[i] as int;
                let laid = after.instances[i];
                let id = before.template_instances[source].mesh_id as int;
                &&& after.instances.len() == before.instances.len()
                &&& laid.object_to_world == placements[source].object_to_world
                &&& laid.world_to_object == placements[source].world_to_object
                &&& laid.mesh_id == before.template_instances[source].mesh_id
                &&& laid.material_id == before.template_instances[source].material_id
                &&& laid.node_offset == before.tlas_capacity + before.mesh_descs[id].node_offset
                &&& laid.tri_offset == before.mesh_descs[id].tri_offset
            }
            &&& before.backend is Hardware ==> {
                let laid = after.instances[i];
                let entry = after.tlas->0[i];
                &&& after.instances.len() == before.instances.len()
                &&& laid.object_to_world == placements[i].object_to_world
                &&& laid.world_to_object == placements[i].world_to_object
                &&& laid.mesh_id == kept.mesh_id
                &&& laid.material_id == kept.material_id
                &&& after.tlas is Some
                &&& after.tlas->0.len() == before.tlas->0.len()
                &&& entry_places(entry, placements[i].object_to_world)
                &&& entry.blas == kept.mesh_id
                &&& entry.custom_index == i
                &&& entry.mask == 0xff
            }
        }),
{
    let after = before.updated(placements, top, empty_node, xform_hash);
    let template = moved_instances(before.template_instances, placements);
    match before.backend {
        RayBackend::Software => {
            let source = top.order@[i] as int;
            assert(top.order@[i] < before.template_instances.len());
            assert(before.template_instances[source].mesh_id < before.mesh_descs.len());
            let id = before.template_instances[source].mesh_id as int;
            assert(before.tlas_capacity + before.mesh_descs[id].node_offset <= u32::MAX);
        },
        RayBackend::Hardware => {
            lemma_entry(template, i);
            assert(after.tlas->0[i] == tlas_entries(template)[i]);
        },
    }
}

/// A mesh without triangles reads the indices of one.
pub proof fn law_mesh_without_triangles_reads_one<N>(
    scene: RtScene,
    bvh: SceneBvh<N>,
    empty_node: N,
    m: int,
)
    requires
        buildable(scene, RayBackend::Hardware, bvh),
        0 <= m < scene.mesh_ranges@.len(),
    ensures
        ({
            let gpu = gpu_model(scene, RayBackend::Hardware, bvh, empty_node);
            let range = scene.mesh_ranges@[m];
            &&& gpu.blas.len() == scene.mesh_ranges@.len()
            &&& gpu.blas[m].first_index == 3 * range.tri_start
            &&& range.tri_count > 0 ==> gpu.blas[m].index_count == 3 * range.tri_count
            &&& range.tri_count == 0 ==> gpu.blas[m].index_count == 3
            &&& scene.mesh_triangles@.len() > 0 ==> gpu.indices.len()
                == 3 * scene.mesh_triangles@.len()
        }),
{
    assert(scene.mesh_ranges@[m].tri_start * 3 <= u32::MAX);
    assert(scene_blas(scene.mesh_ranges@)[m] == mesh_blas(
        scene.mesh_ranges@[m],
    ));
    assert(triangle_indices(scene.mesh_triangles@).len() == if scene.mesh_triangles@.len() == 0 {
        3
    } else {
        scene.mesh_triangles@.len() * 3
    });
}

/// An update with one placement per instance moves the instances that are kept for the next
/// build or update, even where the top level could not be rewritten.
pub proof fn law_refused_update_still_moves_the_kept_instances<N>(
    before: GpuModel<N>,
    placements: Seq<Placement>,
    top: TopBvh<N>,
    empty_node: N,
    xform_hash: u64,
    i: int,
)
    requires
        placements.len() == before.template_instances.len(),
        0 <= i < placements.len(),
    ensures
        ({
            let after = before.updated(placements, top, empty_node, xform_hash);
            let moved = after.template_instances[i];
            &&& after.template_instances.len() == placements.len()
            &&& moved.object_to_world == placements[i].object_to_world
            &&& moved.world_to_object == placements[i].world_to_object
            &&& moved.mesh_id == before.template_instances[i].mesh_id
            &&& moved.material_id == before.template_instances[i].material_id
        }),
{
}

/// An applied update of the compute backend puts the new top level at the beginning of the
/// node buffer and fills up its region.
pub proof fn law_updated_top_level_is_in_its_region<N>(
    before: GpuModel<N>,
    placements: Seq<Placement>,
    top: TopBvh<N>,
    empty_node: N,
    xform_hash: u64,
)
    requires
        before.takes(placements.len(), top),
        before.updatable(placements.len(), top.nodes@.len()),
        before.backend is Software,
    ensures
        ({
            let after = before.updated(placements, top, empty_node, xform_hash);
            &&& after.bvh.len() == before.bvh.len()
            &&& begins(after.bvh, top.nodes@)
            &&& forall|k: int|
                top.nodes@.len() <= k < before.tlas_capacity ==> #[trigger] after.bvh[k]
                    == empty_node
            &&& forall|k: int|
                before.tlas_capacity <= k < before.bvh.len() ==> #[trigger] after.bvh[k]
                    == before.bvh[k]
        }),
{
}

} // verus!
