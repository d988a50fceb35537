//! Laws of the scene on the GPU.

use crate::bake::BakedObject;
use crate::content::{geometry_hash, transform_hash};
use crate::fnv::{le_bytes, le_bytes_of};
use crate::gather::{gathered, rt_light};
use crate::gpu_scene::{
    blas_nodes, buildable, compute_desc, compute_descs, compute_model, gpu_model,
    index_ranges_fit, instance_entry, mesh_blas, moved_instances, order_within, ordered_triangles,
    padded, scene_blas, tlas_entries, top_capacity, triangle_indices, triangles_within,
    upper_rows, GpuModel, MeshBvh, Placement, RayBackend, SceneBvh, TopBvh,
};
use crate::laws::content::law_geometry_hash_ignores_transforms;
use crate::laws::gather::{law_moving_changes_the_placements_alone, moved_nodes, placements_of};
use crate::records::{RtMeshRange, RtScene, RtTriangle};
use crate::scene::{CollectedLight, LightCollection, SceneNode3d};
use crate::upload::{be_bytes_of, buffer_words, memory_of, records_words, GpuRecord};
use vstd::prelude::*;

verus! {

/// `moved` is `scene` with its instances at other placements.
pub open spec fn moved_scene(
    scene: RtScene,
    moved: RtScene,
    placements: Seq<Placement>,
    xform_hash: u64,
) -> bool {
    &&& moved.mesh_vertices@ == scene.mesh_vertices@
    &&& moved.mesh_triangles@ == scene.mesh_triangles@
    &&& moved.mesh_ranges@ == scene.mesh_ranges@
    &&& moved.instances@ == moved_instances(scene.instances@, placements)
    &&& moved.materials@ == scene.materials@
    &&& moved.lights@ == scene.lights@
    &&& moved.emitters@ == scene.emitters@
    &&& moved.textures@ == scene.textures@
    &&& moved.geom_hash == scene.geom_hash
    &&& moved.xform_hash == xform_hash
}

/// `scene` is what gathering the nodes gives.
pub open spec fn gathers_to(
    nodes: Seq<SceneNode3d>,
    baked: Seq<BakedObject>,
    lights: LightCollection,
    render_layers: u32,
    scene: RtScene,
) -> bool {
    &&& scene.model() == gathered(nodes, baked, render_layers)
    &&& scene.lights@ == lights.lights@.map_values(|light: CollectedLight| rt_light(light))
    &&& scene.geom_hash == geometry_hash(nodes, lights, render_layers)
    &&& scene.xform_hash == transform_hash(nodes, render_layers)
}

/// Moving the instances of a scene on the GPU leaves it as if the moved scene had been
/// built anew, whatever the backend: the fast path and the full rebuild agree.
pub proof fn law_update_equals_rebuild<N>(
    scene: RtScene,
    moved: RtScene,
    backend: RayBackend,
    bvh: SceneBvh<N>,
    rebuilt: SceneBvh<N>,
    placements: Seq<Placement>,
    empty_node: N,
    xform_hash: u64,
)
    requires
        buildable(scene, backend, bvh),
        buildable(moved, backend, rebuilt),
        moved_scene(scene, moved, placements, xform_hash),
        placements.len() == scene.instances@.len(),
        rebuilt.meshes@ == bvh.meshes@,
    ensures
        gpu_model(scene, backend, bvh, empty_node).updatable(
            placements.len(),
            rebuilt.top.nodes@.len(),
        ),
        gpu_model(scene, backend, bvh, empty_node).updated(
            placements,
            rebuilt.top,
            empty_node,
            xform_hash,
        ) == gpu_model(moved, backend, rebuilt, empty_node),
{
    let before = gpu_model(scene, backend, bvh, empty_node);
    let after = before.updated(placements, rebuilt.top, empty_node, xform_hash);
    let fresh = gpu_model(moved, backend, rebuilt, empty_node);
    assert(after.mesh_aabbs =~= fresh.mesh_aabbs);
    match backend {
        RayBackend::Software => {
            assert(after.bvh =~= fresh.bvh);
            assert(after.instances =~= fresh.instances);
            assert(after =~= fresh);
        },
        RayBackend::Hardware => {
            assert(moved.instances@.len() == scene.instances@.len());
            if scene.instances@.len() == 0 {
                assert(moved.instances@ =~= scene.instances@);
                assert(after.tlas == fresh.tlas);
            } else {
                assert(after.instances =~= fresh.instances);
                assert(after.tlas->0 =~= fresh.tlas->0);
            }
            assert(after.meshes =~= fresh.meshes);
            assert(after.blas =~= fresh.blas);
            assert(after =~= fresh);
        },
    }
}

/// Where the nodes of a scene without emitters move, moving the instances on the GPU to
/// the placements of the moved nodes leaves it as gathering and building the moved scene
/// would.
pub proof fn law_fast_path_equals_gather_and_build<N>(
    a: Seq<SceneNode3d>,
    b: Seq<SceneNode3d>,
    baked_a: Seq<BakedObject>,
    baked_b: Seq<BakedObject>,
    lights: LightCollection,
    render_layers: u32,
    scene: RtScene,
    moved: RtScene,
    backend: RayBackend,
    bvh: SceneBvh<N>,
    rebuilt: SceneBvh<N>,
    empty_node: N,
)
    requires
        moved_nodes(a, b, baked_a, baked_b, render_layers),
        gathers_to(a, baked_a, lights, render_layers, scene),
        gathers_to(b, baked_b, lights, render_layers, moved),
        buildable(scene, backend, bvh),
        buildable(moved, backend, rebuilt),
        rebuilt.meshes@ == bvh.meshes@,
    ensures
        gpu_model(scene, backend, bvh, empty_node).updated(
            placements_of(moved.instances@),
            rebuilt.top,
            empty_node,
            transform_hash(b, render_layers),
        ) == gpu_model(moved, backend, rebuilt, empty_node),
{
    law_moving_changes_the_placements_alone(a, b, baked_a, baked_b, render_layers);
    law_geometry_hash_ignores_transforms(a, b, lights, render_layers);
    let placements = placements_of(moved.instances@);
    let before = scene.model();
    let after = moved.model();
    assert(after.vertices == before.vertices);
    assert(after.triangles == before.triangles);
    assert(after.ranges == before.ranges);
    assert(after.materials == before.materials);
    assert(after.emitters == before.emitters);
    assert(after.textures == before.textures);
    assert(moved_scene(scene, moved, placements, transform_hash(b, render_layers)));
    law_update_equals_rebuild(
        scene,
        moved,
        backend,
        bvh,
        rebuilt,
        placements,
        empty_node,
        transform_hash(b, render_layers),
    );
}

/// An update reads and writes the top level alone: the meshes, the materials, the
/// lights, the textures and the nodes behind the top-level region stay as they are.
pub proof fn law_update_keeps_the_meshes<N>(
    before: GpuModel<N>,
    placements: Seq<Placement>,
    top: TopBvh<N>,
    empty_node: N,
    xform_hash: u64,
)
    requires
        before.consistent(),
    ensures
        ({
            let after = before.updated(placements, top, empty_node, xform_hash);
            &&& after.vertices == before.vertices
            &&& after.triangles == before.triangles
            &&& after.materials == before.materials
            &&& after.lights == before.lights
            &&& after.emitters == before.emitters
            &&& after.meshes == before.meshes
            &&& after.textures == before.textures
            &&& after.mesh_aabbs == before.mesh_aabbs
            &&& after.mesh_descs == before.mesh_descs
            &&& after.indices == before.indices
            &&& after.blas == before.blas
            &&& after.geom_hash == before.geom_hash
            &&& after.backend == before.backend
            &&& after.tlas_capacity == before.tlas_capacity
            &&& before.backend is Software ==> after.bvh.skip(before.tlas_capacity as int)
                == before.bvh.skip(before.tlas_capacity as int)
            &&& before.backend is Hardware ==> after.bvh == before.bvh
        }),
{
    let after = before.updated(placements, top, empty_node, xform_hash);
    if before.backend is Software {
        assert(after.bvh.skip(before.tlas_capacity as int) =~= before.bvh.skip(
            before.tlas_capacity as int,
        ));
    }
}

/// A refused update leaves every buffer as it was, and one with the wrong number of
/// placements leaves the whole scene as it was.
pub proof fn law_refused_update_keeps_the_buffers<N>(
    before: GpuModel<N>,
    placements: Seq<Placement>,
    top: TopBvh<N>,
    empty_node: N,
    xform_hash: u64,
)
    requires
        !before.updatable(placements.len(), top.nodes@.len()),
    ensures
        ({
            let after = before.updated(placements, top, empty_node, xform_hash);
            &&& after == (GpuModel { template_instances: after.template_instances, ..before })
            &&& placements.len() != before.template_instances.len() ==> after == before
        }),
{
}

/// Of two updates only the second shows.
pub proof fn law_last_update_wins<N>(
    before: GpuModel<N>,
    first: Seq<Placement>,
    first_top: TopBvh<N>,
    second: Seq<Placement>,
    second_top: TopBvh<N>,
    empty_node: N,
    first_hash: u64,
    second_hash: u64,
)
    requires
        before.takes(first.len(), first_top),
        before.takes(second.len(), second_top),
        before.updatable(first.len(), first_top.nodes@.len()),
        before.updatable(second.len(), second_top.nodes@.len()),
    ensures
        before.updated(first, first_top, empty_node, first_hash).updated(
            second,
            second_top,
            empty_node,
            second_hash,
        ) == before.updated(second, second_top, empty_node, second_hash),
{
    let middle = before.updated(first, first_top, empty_node, first_hash);
    let twice = middle.updated(second, second_top, empty_node, second_hash);
    let once = before.updated(second, second_top, empty_node, second_hash);
    let template = moved_instances(before.template_instances, second);
    assert(moved_instances(middle.template_instances, second) =~= template);
    match before.backend {
        RayBackend::Software => {
            assert(twice.bvh =~= once.bvh);
            assert(twice.instances =~= once.instances);
        },
        RayBackend::Hardware => {
            if template.len() > 0 {
                assert(twice.instances =~= once.instances);
                assert(twice.tlas->0 =~= once.tlas->0);
            }
        },
    }
    assert(twice =~= once);
}

pub(crate) proof fn lemma_mesh_in_concatenation<N>(meshes: Seq<MeshBvh<N>>, m: int)
    requires
        0 <= m < meshes.len(),
    ensures
        ({
            let nodes = blas_nodes(meshes.take(m)).len();
            let triangles = ordered_triangles(meshes.take(m)).len();
            &&& nodes + meshes[m].nodes@.len() <= blas_nodes(meshes).len()
            &&& triangles + meshes[m].triangles@.len() <= ordered_triangles(meshes).len()
            &&& forall|j: int|
                0 <= j < meshes[m].nodes@.len() ==> #[trigger] meshes[m].nodes@[j] == blas_nodes(
                    meshes,
                )[nodes + j]
            &&& forall|j: int|
                0 <= j < meshes[m].triangles@.len() ==> #[trigger] meshes[m].triangles@[j]
                    == ordered_triangles(meshes)[triangles + j]
        }),
    decreases meshes.len(),
{
    if m == meshes.len() - 1 {
        assert(meshes.take(m) =~= meshes.drop_last());
    } else {
        lemma_mesh_in_concatenation(meshes.drop_last(), m);
        assert(meshes.drop_last().take(m) =~= meshes.take(m));
        assert(meshes.drop_last()[m] == meshes[m]);
    }
}

/// Instance `i` finds the BVH of its mesh at its node base and the triangles that the
/// leaves speak of at its triangle base.
pub open spec fn finds_its_mesh<N>(gpu: GpuModel<N>, meshes: Seq<MeshBvh<N>>, i: int) -> bool {
    let instance = gpu.instances[i];
    let mesh = meshes[instance.mesh_id as int];
    &&& instance.mesh_id < meshes.len()
    &&& instance.node_offset + mesh.nodes@.len() <= gpu.bvh.len()
    &&& instance.tri_offset + mesh.triangles@.len() <= gpu.triangles.len()
    &&& forall|j: int|
        0 <= j < mesh.nodes@.len() ==> #[trigger] mesh.nodes@[j]
            == gpu.bvh[instance.node_offset + j]
    &&& forall|j: int|
        0 <= j < mesh.triangles@.len() ==> #[trigger] mesh.triangles@[j]
            == gpu.triangles[instance.tri_offset + j]
}

/// Every instance of the compute backend's scene finds the nodes and the triangles of
/// its mesh.
pub proof fn law_instances_find_their_meshes<N>(
    scene: RtScene,
    bvh: SceneBvh<N>,
    empty_node: N,
    i: int,
)
    requires
        buildable(scene, RayBackend::Software, bvh),
        top_capacity(scene.instances@.len()) + blas_nodes(bvh.meshes@).len() <= u32::MAX,
        ordered_triangles(bvh.meshes@).len() <= u32::MAX,
        0 <= i < bvh.top.order@.len(),
    ensures
        finds_its_mesh(compute_model(scene, bvh, empty_node), bvh.meshes@, i),
{
    let gpu = compute_model(scene, bvh, empty_node);
    let instance = gpu.instances[i];
    let capacity = top_capacity(scene.instances@.len());
    let source = scene.instances@[bvh.top.order@[i] as int];
    assert(bvh.top.order@[i] < scene.instances@.len());
    assert(source.mesh_id < bvh.meshes@.len());
    let m = source.mesh_id as int;
    lemma_mesh_in_concatenation(bvh.meshes@, m);
    assert(compute_descs(bvh.meshes@)[m] == compute_desc(bvh.meshes@, m));
    assert(padded(bvh.top.nodes@, capacity, empty_node).len() == capacity);
    assert forall|j: int| 0 <= j < bvh.meshes@[m].nodes@.len() implies
        #[trigger] bvh.meshes@[m].nodes@[j] == gpu.bvh[instance.node_offset + j] by {
        assert(gpu.bvh[instance.node_offset + j] == blas_nodes(bvh.meshes@)[instance.node_offset
            - capacity + j]);
    }
}

/// An instance finds its mesh after every update as well.
pub proof fn law_moved_instances_find_their_meshes<N>(
    scene: RtScene,
    bvh: SceneBvh<N>,
    empty_node: N,
    placements: Seq<Placement>,
    top: TopBvh<N>,
    xform_hash: u64,
    i: int,
)
    requires
        buildable(scene, RayBackend::Software, bvh),
        top_capacity(scene.instances@.len()) + blas_nodes(bvh.meshes@).len() <= u32::MAX,
        ordered_triangles(bvh.meshes@).len() <= u32::MAX,
        placements.len() == scene.instances@.len(),
        top.nodes@.len() <= top_capacity(scene.instances@.len()),
        order_within(top.order@, scene.instances@.len()),
        top.order@.len() == scene.instances@.len(),
        0 <= i < bvh.top.order@.len(),
    ensures
        finds_its_mesh(
            compute_model(scene, bvh, empty_node).updated(
                placements,
                top,
                empty_node,
                xform_hash,
            ),
            bvh.meshes@,
            i,
        ),
{
    let before = compute_model(scene, bvh, empty_node);
    let after = before.updated(placements, top, empty_node, xform_hash);
    let capacity = top_capacity(scene.instances@.len());
    law_instances_find_their_meshes(scene, bvh, empty_node, i);
    assert(before.bvh.len() == after.bvh.len());
    assert forall|k: int| capacity <= k < after.bvh.len() implies #[trigger] after.bvh[k]
        == before.bvh[k] by {}
    let instance = after.instances[i];
    let source = top.order@[i] as int;
    assert(top.order@[i] < scene.instances@.len());
    assert(scene.instances@[source].mesh_id < bvh.meshes@.len());
    let m = scene.instances@[source].mesh_id as int;
    lemma_mesh_in_concatenation(bvh.meshes@, m);
    assert(compute_descs(bvh.meshes@)[m] == compute_desc(bvh.meshes@, m));
    assert forall|j: int| 0 <= j < bvh.meshes@[m].nodes@.len() implies
        #[trigger] bvh.meshes@[m].nodes@[j] == after.bvh[instance.node_offset + j] by {
        assert(after.bvh[instance.node_offset + j] == before.bvh[instance.node_offset + j]);
        assert(before.bvh[instance.node_offset + j] == blas_nodes(
            bvh.meshes@,
        )[instance.node_offset - capacity + j]);
    }
}

/// The bottom-level structure of a mesh reads the vertices of the mesh's triangles, in
/// their order, and stays within the index buffer.
pub proof fn law_hardware_meshes_read_their_triangles(
    triangles: Seq<RtTriangle>,
    ranges: Seq<RtMeshRange>,
    m: int,
    j: int,
)
    requires
        index_ranges_fit(ranges),
        0 <= m < ranges.len(),
        triangles_within(ranges[m], triangles.len()),
        0 <= j < ranges[m].tri_count,
    ensures
        ({
            let blas = scene_blas(ranges)[m];
            let indices = triangle_indices(triangles);
            let t = triangles[ranges[m].tri_start + j];
            &&& blas.index_count == 3 * ranges[m].tri_count
            &&& blas.first_index + blas.index_count <= indices.len()
            &&& indices[blas.first_index + 3 * j] == t.v0
            &&& indices[blas.first_index + 3 * j + 1] == t.v1
            &&& indices[blas.first_index + 3 * j + 2] == t.v2
        }),
{
    let blas = scene_blas(ranges)[m];
    assert(blas == mesh_blas(ranges[m]));
    let i = ranges[m].tri_start + j;
    assert(blas.first_index + 3 * j == 3 * i);
    assert((3 * i) / 3 == i && (3 * i + 1) / 3 == i && (3 * i + 2) / 3 == i);
    assert((3 * i) % 3 == 0 && (3 * i + 1) % 3 == 1 && (3 * i + 2) % 3 == 2);
}

/// Hardware instance `i` reports its own index in the instance buffer, refers to the
/// structure of its mesh and is placed as the instance is.
pub proof fn law_hardware_entries_follow_the_instances<N>(
    scene: RtScene,
    bvh: SceneBvh<N>,
    empty_node: N,
    i: int,
)
    requires
        buildable(scene, RayBackend::Hardware, bvh),
        0 <= i < scene.instances@.len() <= u32::MAX,
    ensures
        ({
            let gpu = gpu_model(scene, RayBackend::Hardware, bvh, empty_node);
            let entry = gpu.tlas->0[i];
            &&& gpu.tlas is Some
            &&& gpu.tlas->0.len() == gpu.instances.len()
            &&& entry.custom_index == i
            &&& entry.blas == gpu.instances[i].mesh_id
            &&& entry.blas < gpu.blas.len()
            &&& entry.transform == upper_rows(gpu.instances[i].object_to_world)
        }),
{
    assert(tlas_entries(scene.instances@)[i] == instance_entry(scene.instances@, i));
    assert(scene.instances@[i].mesh_id < scene_blas(scene.mesh_ranges@).len());
}

pub(crate) proof fn lemma_records_len<T: GpuRecord>(data: Seq<T>)
    ensures
        records_words(data).len() == data.len() * T::record_len(),
    decreases data.len(),
{
    let size = T::record_len();
    if data.len() > 0 {
        lemma_records_len(data.drop_last());
        data.last().lemma_record_len();
        assert((data.len() - 1) * size + size == data.len() * size) by (nonlinear_arith);
    } else {
        assert(0 * size == 0) by (nonlinear_arith);
    }
}

pub(crate) proof fn lemma_bytes_len(words: Seq<u32>)
    ensures
        le_bytes_of(words).len() == 4 * words.len(),
        be_bytes_of(words).len() == 4 * words.len(),
    decreases words.len(),
{
    if words.len() > 0 {
        lemma_bytes_len(words.drop_last());
        assert(le_bytes(words.last()).len() == 4);
    }
}

/// A buffer has room for every record that it was made from, and for one where there
/// were none: it is never empty.
pub proof fn law_buffers_are_never_empty<T: GpuRecord>(data: Seq<T>, bytes: Seq<u8>)
    requires
        memory_of(bytes, buffer_words(data)),
    ensures
        bytes.len() == 4 * T::record_len() * (if data.len() == 0 {
            1
        } else {
            data.len()
        }),
{
    lemma_records_len(data);
    lemma_bytes_len(buffer_words(data));
    let size = T::record_len();
    let n = data.len();
    assert(4 * (n * size) == 4 * size * n) by (nonlinear_arith);
}

} // verus!
