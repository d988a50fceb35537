//! The scene as it lies on the GPU.
//!
//! Both backends share the vertex, triangle, material, light, emitter and instance
//! buffers. The compute backend adds a two-level BVH in one buffer: the top level
//! over the instances, in a region of fixed size, then the bottom levels of the
//! meshes. The hardware backend adds the inputs of one bottom-level acceleration
//! structure per mesh and of a top-level one over the instances.
//!
//! The BVHs are built elsewhere. `N` is the node of their builder.

use crate::bounds::{mesh_aabbs, mesh_box, vertices_within, Aabb};
use crate::float::F32;
use crate::records::{
    RtEmitter, RtInstance, RtLight, RtMaterial, RtMeshDesc, RtMeshRange, RtScene, RtTriangle,
    RtVertex,
};
use crate::scene::{one, zero, Mat4, TextureHandle, ONE_BITS};
use vstd::prelude::*;

verus! {

/// How rays are intersected with the scene.
#[derive(Clone, Copy, Debug, PartialEq, Eq, Structural)]
pub enum RayBackend {
    /// Traversal of a BVH in a compute shader.
    Software,
    /// Hardware ray queries.
    Hardware,
}

/// A BVH over the triangles of one mesh, and the triangles in the order of its
/// leaves.
#[derive(Debug)]
pub struct MeshBvh<N> {
    pub nodes: Vec<N>,
    pub triangles: Vec<RtTriangle>,
}

/// A BVH over the instances, and the instances in the order of its leaves.
#[derive(Debug)]
pub struct TopBvh<N> {
    pub nodes: Vec<N>,
    pub order: Vec<u32>,
}

/// The BVHs of a scene: one per mesh, and one over the instances.
#[derive(Debug)]
pub struct SceneBvh<N> {
    pub meshes: Vec<MeshBvh<N>>,
    pub top: TopBvh<N>,
}

/// The part of the shared index buffer that a mesh's acceleration structure reads.
#[derive(Clone, Copy, Debug, PartialEq, Eq, Structural)]
pub struct BlasInput {
    pub first_index: u32,
    pub index_count: u32,
}

/// An instance of the top-level acceleration structure.
#[derive(Clone, Copy, Debug)]
pub struct TlasEntry {
    /// Index of the bottom-level structure.
    pub blas: u32,
    /// Placement, as three rows of four numbers.
    pub transform: [F32; 12],
    /// Index into the instance buffer.
    pub custom_index: u32,
    /// Visibility mask.
    pub mask: u8,
}

/// The placement of one instance, and its inverse.
#[derive(Clone, Copy, Debug)]
pub struct Placement {
    pub object_to_world: Mat4,
    pub world_to_object: Mat4,
}

/// Contents of the GPU buffers of a scene, and what is needed to move its instances.
#[derive(Debug)]
pub struct GpuScene<N> {
    /// Vertices.
    pub vertices: Vec<RtVertex>,
    /// Triangles: in the order of the BVH leaves (compute) or of the scene
    /// (hardware).
    pub triangles: Vec<RtTriangle>,
    /// Materials.
    pub materials: Vec<RtMaterial>,
    /// Lights.
    pub lights: Vec<RtLight>,
    /// Emissive triangles.
    pub emitters: Vec<RtEmitter>,
    /// The merged BVH (compute), or one unused node (hardware).
    pub bvh: Vec<N>,
    /// Mesh descriptors.
    pub meshes: Vec<RtMeshDesc>,
    /// Instances: in the order of the top-level leaves (compute) or of the scene
    /// (hardware).
    pub instances: Vec<RtInstance>,
    /// Textures, one per layer.
    pub textures: Vec<TextureHandle>,
    /// Number of triangles of the scene.
    pub num_triangles: u32,
    /// Number of lights of the scene.
    pub num_lights: u32,
    /// Number of emissive triangles of the scene.
    pub num_emitters: u32,
    /// Whether some material is translucent.
    pub has_translucent: bool,
    /// Whether some material casts no shadows.
    pub has_non_shadow_caster: bool,
    /// Geometry hash of the scene.
    pub geom_hash: u64,
    /// Transform hash of the scene, or of the last update.
    pub xform_hash: u64,
    /// The backend that the scene was built for.
    pub backend: RayBackend,
    /// The instances in the order of the scene.
    pub template_instances: Vec<RtInstance>,
    /// The box of each mesh, in its own space.
    pub mesh_aabbs: Vec<Aabb>,
    /// The node and triangle bases of each mesh.
    pub mesh_descs: Vec<RtMeshDesc>,
    /// Size of the top-level region of `bvh` (compute).
    pub tlas_capacity: u32,
    /// Vertex indices of every triangle (hardware).
    pub indices: Vec<u32>,
    /// Inputs of the bottom-level acceleration structures (hardware).
    pub blas: Vec<BlasInput>,
    /// Entries of the top-level acceleration structure (hardware).
    pub tlas: Option<Vec<TlasEntry>>,
}

/// The contents of a [`GpuScene`], as sequences.
#[verifier::ext_equal]
pub struct GpuModel<N> {
    pub vertices: Seq<RtVertex>,
    pub triangles: Seq<RtTriangle>,
    pub materials: Seq<RtMaterial>,
    pub lights: Seq<RtLight>,
    pub emitters: Seq<RtEmitter>,
    pub bvh: Seq<N>,
    pub meshes: Seq<RtMeshDesc>,
    pub instances: Seq<RtInstance>,
    pub textures: Seq<TextureHandle>,
    pub num_triangles: u32,
    pub num_lights: u32,
    pub num_emitters: u32,
    pub has_translucent: bool,
    pub has_non_shadow_caster: bool,
    pub geom_hash: u64,
    pub xform_hash: u64,
    pub backend: RayBackend,
    pub template_instances: Seq<RtInstance>,
    pub mesh_aabbs: Seq<Aabb>,
    pub mesh_descs: Seq<RtMeshDesc>,
    pub tlas_capacity: u32,
    pub indices: Seq<u32>,
    pub blas: Seq<BlasInput>,
    pub tlas: Option<Seq<TlasEntry>>,
}

impl<N> View for GpuScene<N> {
    type V = GpuModel<N>;

    open spec fn view(&self) -> GpuModel<N> {
        GpuModel {
            vertices: self.vertices@,
            triangles: self.triangles@,
            materials: self.materials@,
            lights: self.lights@,
            emitters: self.emitters@,
            bvh: self.bvh@,
            meshes: self.meshes@,
            instances: self.instances@,
            textures: self.textures@,
            num_triangles: self.num_triangles,
            num_lights: self.num_lights,
            num_emitters: self.num_emitters,
            has_translucent: self.has_translucent,
            has_non_shadow_caster: self.has_non_shadow_caster,
            geom_hash: self.geom_hash,
            xform_hash: self.xform_hash,
            backend: self.backend,
            template_instances: self.template_instances@,
            mesh_aabbs: self.mesh_aabbs@,
            mesh_descs: self.mesh_descs@,
            tlas_capacity: self.tlas_capacity,
            indices: self.indices@,
            blas: self.blas@,
            tlas: match self.tlas {
                Some(entries) => Some(entries@),
                None => None,
            },
        }
    }
}

/// The nodes of the meshes, mesh after mesh.
pub open spec fn blas_nodes<N>(meshes: Seq<MeshBvh<N>>) -> Seq<N>
    decreases meshes.len(),
{
    if meshes.len() == 0 {
        Seq::empty()
    } else {
        blas_nodes(meshes.drop_last()) + meshes.last().nodes@
    }
}

/// The triangles of the meshes in the order of their leaves, mesh after mesh.
pub open spec fn ordered_triangles<N>(meshes: Seq<MeshBvh<N>>) -> Seq<RtTriangle>
    decreases meshes.len(),
{
    if meshes.len() == 0 {
        Seq::empty()
    } else {
        ordered_triangles(meshes.drop_last()) + meshes.last().triangles@
    }
}

/// The bases of mesh `m` in the concatenated nodes and triangles.
pub open spec fn compute_desc<N>(meshes: Seq<MeshBvh<N>>, m: int) -> RtMeshDesc {
    RtMeshDesc {
        node_offset: blas_nodes(meshes.take(m)).len() as u32,
        tri_offset: ordered_triangles(meshes.take(m)).len() as u32,
        _pad: [0, 0],
    }
}

/// The bases of every mesh.
pub open spec fn compute_descs<N>(meshes: Seq<MeshBvh<N>>) -> Seq<RtMeshDesc> {
    Seq::new(meshes.len(), |m: int| compute_desc(meshes, m))
}

/// Size of the top-level region for `n` instances: twice as many nodes as there are
/// leaves, which no BVH exceeds.
pub open spec fn top_capacity(n: nat) -> nat {
    if n == 0 {
        2
    } else {
        n * 2
    }
}

/// The nodes, filled up to `capacity` with `filler`.
pub open spec fn padded<N>(nodes: Seq<N>, capacity: nat, filler: N) -> Seq<N> {
    nodes + Seq::new((capacity - nodes.len()) as nat, |i: int| filler)
}

/// An instance with the bases of its mesh written in.
pub open spec fn based_instance(
    instance: RtInstance,
    descs: Seq<RtMeshDesc>,
    capacity: u32,
) -> RtInstance {
    let desc = descs[instance.mesh_id as int];
    RtInstance {
        node_offset: (capacity + desc.node_offset) as u32,
        tri_offset: desc.tri_offset,
        ..instance
    }
}

/// The instances in the order of the top-level leaves, with the bases of their
/// meshes written in.
pub open spec fn ordered_instances(
    instances: Seq<RtInstance>,
    order: Seq<u32>,
    descs: Seq<RtMeshDesc>,
    capacity: u32,
) -> Seq<RtInstance> {
    Seq::new(
        order.len(),
        |i: int| based_instance(instances[order[i] as int], descs, capacity),
    )
}

/// Some material is translucent: its alpha is below one.
pub open spec fn translucent(materials: Seq<RtMaterial>) -> bool {
    exists|i: int| 0 <= i < materials.len() && (#[trigger] materials[i]).base_color[3].less(one())
}

/// Some material casts no shadows.
pub open spec fn shadowless(materials: Seq<RtMaterial>) -> bool {
    exists|i: int| 0 <= i < materials.len() && (#[trigger] materials[i]).casts_shadows == 0
}

/// The boxes of the meshes of a scene.
pub open spec fn scene_boxes(scene: RtScene) -> Seq<Aabb> {
    scene.mesh_ranges@.map_values(|range: RtMeshRange| mesh_box(scene.mesh_vertices@, range))
}

/// The contents of the compute backend's scene.
pub open spec fn compute_model<N>(scene: RtScene, bvh: SceneBvh<N>, empty_node: N) -> GpuModel<N> {
    let capacity = top_capacity(scene.instances@.len()) as u32;
    let descs = compute_descs(bvh.meshes@);
    GpuModel {
        vertices: scene.mesh_vertices@,
        triangles: ordered_triangles(bvh.meshes@),
        materials: scene.materials@,
        lights: scene.lights@,
        emitters: scene.emitters@,
        bvh: padded(bvh.top.nodes@, capacity as nat, empty_node) + blas_nodes(bvh.meshes@),
        meshes: descs,
        instances: ordered_instances(scene.instances@, bvh.top.order@, descs, capacity),
        textures: scene.textures@,
        num_triangles: scene.mesh_triangles@.len() as u32,
        num_lights: scene.lights@.len() as u32,
        num_emitters: scene.emitters@.len() as u32,
        has_translucent: translucent(scene.materials@),
        has_non_shadow_caster: shadowless(scene.materials@),
        geom_hash: scene.geom_hash,
        xform_hash: scene.xform_hash,
        backend: RayBackend::Software,
        template_instances: scene.instances@,
        mesh_aabbs: scene_boxes(scene),
        mesh_descs: descs,
        tlas_capacity: capacity,
        indices: Seq::empty(),
        blas: Seq::empty(),
        tlas: None,
    }
}

/// The vertices, filled up to three with zeroed ones.
pub open spec fn at_least_three(vertices: Seq<RtVertex>) -> Seq<RtVertex> {
    if vertices.len() < 3 {
        padded(vertices, 3, RtVertex::zeroed())
    } else {
        vertices
    }
}

/// The vertex indices of the triangles, three per triangle; one degenerate triangle
/// where there are none.
pub open spec fn triangle_indices(triangles: Seq<RtTriangle>) -> Seq<u32> {
    if triangles.len() == 0 {
        seq![0, 0, 0]
    } else {
        Seq::new(
            triangles.len() * 3,
            |i: int|
                {
                    let t = triangles[i / 3];
                    if i % 3 == 0 {
                        t.v0
                    } else if i % 3 == 1 {
                        t.v1
                    } else {
                        t.v2
                    }
                },
        )
    }
}

/// The indices that the acceleration structure of a mesh reads. A mesh without
/// triangles reads one.
pub open spec fn mesh_blas(range: RtMeshRange) -> BlasInput {
    BlasInput {
        first_index: (range.tri_start * 3) as u32,
        index_count: if range.tri_count == 0 {
            3
        } else {
            (range.tri_count * 3) as u32
        },
    }
}

/// The inputs of the bottom-level structures; one degenerate structure for a scene
/// without meshes.
pub open spec fn scene_blas(ranges: Seq<RtMeshRange>) -> Seq<BlasInput> {
    if ranges.len() == 0 {
        seq![BlasInput { first_index: 0, index_count: 3 }]
    } else {
        ranges.map_values(|range: RtMeshRange| mesh_blas(range))
    }
}

/// The upper three rows of a matrix, row by row.
pub open spec fn upper_rows(m: Mat4) -> [F32; 12] {
    [
        m[0][0],
        m[1][0],
        m[2][0],
        m[3][0],
        m[0][1],
        m[1][1],
        m[2][1],
        m[3][1],
        m[0][2],
        m[1][2],
        m[2][2],
        m[3][2],
    ]
}

/// The upper three rows of the identity.
pub open spec fn identity_rows() -> [F32; 12] {
    [
        one(),
        zero(),
        zero(),
        zero(),
        zero(),
        one(),
        zero(),
        zero(),
        zero(),
        zero(),
        one(),
        zero(),
    ]
}

/// The entry of instance `i` in the top-level structure.
pub open spec fn instance_entry(instances: Seq<RtInstance>, i: int) -> TlasEntry {
    TlasEntry {
        blas: instances[i].mesh_id,
        transform: upper_rows(instances[i].object_to_world),
        custom_index: i as u32,
        mask: 0xff,
    }
}

/// The entries of the top-level structure; one identity entry for a scene without
/// instances.
pub open spec fn tlas_entries(instances: Seq<RtInstance>) -> Seq<TlasEntry> {
    if instances.len() == 0 {
        seq![TlasEntry { blas: 0, transform: identity_rows(), custom_index: 0, mask: 0xff }]
    } else {
        Seq::new(instances.len(), |i: int| instance_entry(instances, i))
    }
}

/// The descriptor of a mesh for the hardware backend: its triangles stay where they
/// are.
pub open spec fn hardware_desc(range: RtMeshRange) -> RtMeshDesc {
    RtMeshDesc { node_offset: 0, tri_offset: range.tri_start, _pad: [0, 0] }
}

/// The contents of the hardware backend's scene.
pub open spec fn hardware_model<N>(scene: RtScene, empty_node: N) -> GpuModel<N> {
    let descs = scene.mesh_ranges@.map_values(|range: RtMeshRange| hardware_desc(range));
    GpuModel {
        vertices: at_least_three(scene.mesh_vertices@),
        triangles: scene.mesh_triangles@,
        materials: scene.materials@,
        lights: scene.lights@,
        emitters: scene.emitters@,
        bvh: seq![empty_node],
        meshes: descs,
        instances: scene.instances@,
        textures: scene.textures@,
        num_triangles: scene.mesh_triangles@.len() as u32,
        num_lights: scene.lights@.len() as u32,
        num_emitters: scene.emitters@.len() as u32,
        has_translucent: translucent(scene.materials@),
        has_non_shadow_caster: shadowless(scene.materials@),
        geom_hash: scene.geom_hash,
        xform_hash: scene.xform_hash,
        backend: RayBackend::Hardware,
        template_instances: scene.instances@,
        mesh_aabbs: scene_boxes(scene),
        mesh_descs: descs,
        tlas_capacity: 0,
        indices: triangle_indices(scene.mesh_triangles@),
        blas: scene_blas(scene.mesh_ranges@),
        tlas: Some(tlas_entries(scene.instances@)),
    }
}

/// The contents of a scene for `backend`.
pub open spec fn gpu_model<N>(
    scene: RtScene,
    backend: RayBackend,
    bvh: SceneBvh<N>,
    empty_node: N,
) -> GpuModel<N> {
    match backend {
        RayBackend::Software => compute_model(scene, bvh, empty_node),
        RayBackend::Hardware => hardware_model(scene, empty_node),
    }
}

/// The range lies within `n` triangles.
pub open spec fn triangles_within(range: RtMeshRange, n: nat) -> bool {
    range.tri_start + range.tri_count <= u32::MAX && range.tri_start + range.tri_count <= n
}

/// The vertices of every mesh lie within the scene's.
pub open spec fn meshes_within(scene: RtScene) -> bool {
    forall|m: int|
        0 <= m < scene.mesh_ranges@.len() ==> vertices_within(
            #[trigger] scene.mesh_ranges@[m],
            scene.mesh_vertices@.len(),
        )
}

/// The instances refer to meshes below `n`.
pub open spec fn instances_within(instances: Seq<RtInstance>, n: nat) -> bool {
    forall|i: int| 0 <= i < instances.len() ==> (#[trigger] instances[i]).mesh_id < n
}

/// The order refers to `n` instances.
pub open spec fn order_within(order: Seq<u32>, n: nat) -> bool {
    forall|i: int| 0 <= i < order.len() ==> (#[trigger] order[i]) < n
}

/// The node bases of the instances' meshes behind a top-level region of `capacity`
/// nodes have 32 bits.
pub open spec fn bases_fit(
    instances: Seq<RtInstance>,
    descs: Seq<RtMeshDesc>,
    capacity: u32,
) -> bool {
    forall|i: int|
        0 <= i < instances.len() ==> capacity + descs[(#[trigger] instances[i]).mesh_id
            as int].node_offset <= u32::MAX
}

/// The BVHs are BVHs of the scene: one per mesh, and a top level whose nodes fit
/// their region and which has one leaf per instance.
pub open spec fn bvh_fits<N>(scene: RtScene, bvh: SceneBvh<N>) -> bool {
    &&& bvh.meshes@.len() == scene.mesh_ranges@.len()
    &&& instances_within(scene.instances@, scene.mesh_ranges@.len())
    &&& top_capacity(scene.instances@.len()) <= u32::MAX
    &&& bvh.top.nodes@.len() <= top_capacity(scene.instances@.len())
    &&& bvh.top.order@.len() == scene.instances@.len()
    &&& order_within(bvh.top.order@, scene.instances@.len())
    &&& bases_fit(
        scene.instances@,
        compute_descs(bvh.meshes@),
        top_capacity(scene.instances@.len()) as u32,
    )
}

/// The index ranges of the meshes have 32 bits.
pub open spec fn index_ranges_fit(ranges: Seq<RtMeshRange>) -> bool {
    forall|m: int|
        0 <= m < ranges.len() ==> (#[trigger] ranges[m]).tri_start * 3 <= u32::MAX
            && ranges[m].tri_count * 3 <= u32::MAX
}

/// The scene can be laid out for `backend`.
pub open spec fn buildable<N>(scene: RtScene, backend: RayBackend, bvh: SceneBvh<N>) -> bool {
    &&& meshes_within(scene)
    &&& match backend {
        RayBackend::Software => bvh_fits(scene, bvh),
        RayBackend::Hardware => {
            &&& instances_within(scene.instances@, scene_blas(scene.mesh_ranges@).len())
            &&& index_ranges_fit(scene.mesh_ranges@)
        },
    }
}

/// The instances moved to new placements.
pub open spec fn moved_instances(
    instances: Seq<RtInstance>,
    placements: Seq<Placement>,
) -> Seq<RtInstance> {
    Seq::new(
        instances.len(),
        |i: int|
            RtInstance {
                object_to_world: placements[i].object_to_world,
                world_to_object: placements[i].world_to_object,
                ..instances[i]
            },
    )
}

/// A buffer whose first elements were overwritten.
pub open spec fn overwritten<T>(buffer: Seq<T>, head: Seq<T>) -> Seq<T> {
    head + buffer.skip(head.len() as int)
}

/// The contents of the compute backend's scene after its instances were moved to
/// `template`.
pub open spec fn software_update<N>(
    before: GpuModel<N>,
    template: Seq<RtInstance>,
    top: TopBvh<N>,
    empty_node: N,
    xform_hash: u64,
) -> GpuModel<N> {
    GpuModel {
        template_instances: template,
        bvh: overwritten(
            before.bvh,
            padded(top.nodes@, before.tlas_capacity as nat, empty_node),
        ),
        instances: overwritten(
            before.instances,
            ordered_instances(template, top.order@, before.mesh_descs, before.tlas_capacity),
        ),
        xform_hash,
        ..before
    }
}

/// The contents of the hardware backend's scene after its instances were moved to
/// `template`.
pub open spec fn hardware_update<N>(
    before: GpuModel<N>,
    template: Seq<RtInstance>,
    xform_hash: u64,
) -> GpuModel<N> {
    if template.len() == 0 {
        GpuModel { template_instances: template, xform_hash, ..before }
    } else {
        GpuModel {
            template_instances: template,
            instances: overwritten(before.instances, template),
            tlas: Some(overwritten(before.tlas->0, tlas_entries(template))),
            xform_hash,
            ..before
        }
    }
}

impl<N> GpuModel<N> {
    /// The instances can be moved: they refer to meshes of the scene, whose bases
    /// have 32 bits, and the buffers have room for them.
    pub open spec fn consistent(self) -> bool {
        match self.backend {
            RayBackend::Software => {
                &&& instances_within(self.template_instances, self.mesh_descs.len())
                &&& self.instances.len() == self.template_instances.len()
                &&& self.mesh_aabbs.len() == self.mesh_descs.len()
                &&& bases_fit(self.template_instances, self.mesh_descs, self.tlas_capacity)
                &&& self.tlas_capacity <= self.bvh.len()
            },
            RayBackend::Hardware => {
                &&& instances_within(self.template_instances, self.blas.len())
                &&& self.template_instances.len() <= self.instances.len()
                &&& self.tlas matches Some(entries) ==> self.template_instances.len()
                    <= entries.len()
            },
        }
    }

    /// An update to `count` placements may be tried with the top level `top`: where the
    /// count is that of the instances, the compute backend's top level has one leaf per
    /// instance.
    pub open spec fn takes(self, count: nat, top: TopBvh<N>) -> bool {
        &&& self.consistent()
        &&& self.backend is Software && count == self.template_instances.len() ==> {
            &&& top.order@.len() == self.template_instances.len()
            &&& order_within(top.order@, self.template_instances.len())
        }
    }

    /// An update to `count` placements, with a top level of `nodes` nodes, can be
    /// applied.
    pub open spec fn updatable(self, count: nat, nodes: nat) -> bool {
        &&& count == self.template_instances.len()
        &&& match self.backend {
            RayBackend::Software => nodes <= self.tlas_capacity,
            RayBackend::Hardware => self.tlas is Some,
        }
    }

    /// The contents after an update.
    pub open spec fn updated(
        self,
        placements: Seq<Placement>,
        top: TopBvh<N>,
        empty_node: N,
        xform_hash: u64,
    ) -> GpuModel<N> {
        let template = moved_instances(self.template_instances, placements);
        if self.updatable(placements.len(), top.nodes@.len()) {
            match self.backend {
                RayBackend::Software => software_update(
                    self,
                    template,
                    top,
                    empty_node,
                    xform_hash,
                ),
                RayBackend::Hardware => hardware_update(self, template, xform_hash),
            }
        } else if placements.len() == self.template_instances.len() {
            GpuModel { template_instances: template, ..self }
        } else {
            self
        }
    }
}

fn append_all<T: Copy>(out: &mut Vec<T>, items: &Vec<T>)
    ensures
        final(out)@ == old(out)@ + items@,
{
    let mut i: usize = 0;
    assert(out@ =~= old(out)@ + items@.take(0));
    while i < items.len()
        invariant
            i <= items.len(),
            out@ == old(out)@ + items@.take(i as int),
        decreases items.len() - i,
    {
        out.push(items[i]);
        assert(out@ =~= old(out)@ + items@.take(i + 1));
        i = i + 1;
    }
    assert(items@.take(i as int) =~= items@);
}

fn copy_all<T: Copy>(items: &Vec<T>) -> (out: Vec<T>)
    ensures
        out@ == items@,
{
    let mut out: Vec<T> = Vec::new();
    append_all(&mut out, items);
    assert(out@ =~= items@);
    out
}

fn pad<N: Copy>(nodes: &mut Vec<N>, capacity: usize, filler: N)
    requires
        old(nodes)@.len() <= capacity,
    ensures
        final(nodes)@ == padded(old(nodes)@, capacity as nat, filler),
{
    let ghost start = old(nodes)@;
    assert(nodes@ =~= start + Seq::new(0, |i: int| filler));
    while nodes.len() < capacity
        invariant
            start.len() <= nodes.len() <= capacity,
            nodes@ == start + Seq::new((nodes@.len() - start.len()) as nat, |i: int| filler),
        decreases capacity - nodes.len(),
    {
        nodes.push(filler);
        assert(nodes@ =~= start + Seq::new((nodes@.len() - start.len()) as nat, |i: int| filler));
    }
}

fn overwrite<T: Copy>(buffer: &mut Vec<T>, head: &Vec<T>)
    requires
        head@.len() <= old(buffer)@.len(),
    ensures
        final(buffer)@ == overwritten(old(buffer)@, head@),
{
    let mut i: usize = 0;
    assert(buffer@ =~= head@.take(0) + old(buffer)@.skip(0));
    while i < head.len()
        invariant
            i <= head.len(),
            head@.len() <= old(buffer)@.len(),
            buffer@.len() == old(buffer)@.len(),
            buffer@ == head@.take(i as int) + old(buffer)@.skip(i as int),
        decreases head.len() - i,
    {
        buffer[i] = head[i];
        assert(buffer@ =~= head@.take(i + 1) + old(buffer)@.skip(i + 1));
        i = i + 1;
    }
    assert(head@.take(i as int) =~= head@);
}

fn has_translucent_material(materials: &Vec<RtMaterial>) -> (r: bool)
    ensures
        r == translucent(materials@),
{
    let one_number = F32::from_bits(ONE_BITS);
    let mut i: usize = 0;
    while i < materials.len()
        invariant
            i <= materials.len(),
            one_number == one(),
            forall|j: int|
                0 <= j < i ==> !(#[trigger] materials@[j]).base_color[3].less(one()),
        decreases materials.len() - i,
    {
        if materials[i].base_color[3].lt(one_number) {
            assert(materials@[i as int].base_color[3].less(one()));
            return true;
        }
        i = i + 1;
    }
    false
}

fn has_shadowless_material(materials: &Vec<RtMaterial>) -> (r: bool)
    ensures
        r == shadowless(materials@),
{
    let mut i: usize = 0;
    while i < materials.len()
        invariant
            i <= materials.len(),
            forall|j: int| 0 <= j < i ==> (#[trigger] materials@[j]).casts_shadows != 0,
        decreases materials.len() - i,
    {
        if materials[i].casts_shadows == 0 {
            assert(materials@[i as int].casts_shadows == 0);
            return true;
        }
        i = i + 1;
    }
    false
}

/// The upper three rows of a matrix, row by row.
pub fn transform_3x4(m: &Mat4) -> (rows: [F32; 12])
    ensures
        rows == upper_rows(*m),
{
    [
        m[0][0],
        m[1][0],
        m[2][0],
        m[3][0],
        m[0][1],
        m[1][1],
        m[2][1],
        m[3][1],
        m[0][2],
        m[1][2],
        m[2][2],
        m[3][2],
    ]
}

/// The upper three rows of the identity, row by row.
pub fn identity_3x4() -> (rows: [F32; 12])
    ensures
        rows == identity_rows(),
{
    let zero_number = F32::from_bits(0);
    let one_number = F32::from_bits(ONE_BITS);
    [
        one_number,
        zero_number,
        zero_number,
        zero_number,
        zero_number,
        one_number,
        zero_number,
        zero_number,
        zero_number,
        zero_number,
        one_number,
        zero_number,
    ]
}

impl RtScene {
    /// The triangles of mesh `m`, which its BVH is built over.
    pub fn triangles_of(&self, m: usize) -> (triangles: Vec<RtTriangle>)
        requires
            m < self.mesh_ranges@.len(),
            triangles_within(self.mesh_ranges@[m as int], self.mesh_triangles@.len()),
        ensures
            triangles@ == self.mesh_triangles@.subrange(
                self.mesh_ranges@[m as int].tri_start as int,
                self.mesh_ranges@[m as int].tri_start + self.mesh_ranges@[m as int].tri_count,
            ),
    {
        let range = self.mesh_ranges[m];
        let start: usize = range.tri_start as usize;
        let end: usize = start + range.tri_count as usize;
        let mut out: Vec<RtTriangle> = Vec::new();
        let mut i: usize = start;
        while i < end
            invariant
                start <= i <= end,
                end <= self.mesh_triangles@.len(),
                out@ == self.mesh_triangles@.subrange(start as int, i as int),
            decreases end - i,
        {
            out.push(self.mesh_triangles[i]);
            assert(out@ =~= self.mesh_triangles@.subrange(start as int, i + 1));
            i = i + 1;
        }
        out
    }
}

fn place_instances(
    instances: &Vec<RtInstance>,
    order: &Vec<u32>,
    descs: &Vec<RtMeshDesc>,
    capacity: u32,
) -> (out: Vec<RtInstance>)
    requires
        order_within(order@, instances@.len()),
        instances_within(instances@, descs@.len()),
        bases_fit(instances@, descs@, capacity),
    ensures
        out@ == ordered_instances(instances@, order@, descs@, capacity),
{
    let ghost all = ordered_instances(instances@, order@, descs@, capacity);
    let mut out: Vec<RtInstance> = Vec::new();
    let mut i: usize = 0;
    while i < order.len()
        invariant
            i <= order.len(),
            order_within(order@, instances@.len()),
            instances_within(instances@, descs@.len()),
            bases_fit(instances@, descs@, capacity),
            all == ordered_instances(instances@, order@, descs@, capacity),
            out@ == all.take(i as int),
        decreases order.len() - i,
    {
        assert(order@[i as int] < instances@.len());
        let source: usize = order[i] as usize;
        assert(instances@[source as int].mesh_id < descs@.len());
        let mut instance = instances[source];
        let desc = descs[instance.mesh_id as usize];
        instance.node_offset = capacity + desc.node_offset;
        instance.tri_offset = desc.tri_offset;
        out.push(instance);
        assert(out@ =~= all.take(i + 1));
        i = i + 1;
    }
    assert(all.take(i as int) =~= all);
    out
}

fn make_tlas_entries(instances: &Vec<RtInstance>) -> (entries: Vec<TlasEntry>)
    ensures
        entries@ == tlas_entries(instances@),
{
    let mut entries: Vec<TlasEntry> = Vec::new();
    if instances.len() == 0 {
        entries.push(
            TlasEntry { blas: 0, transform: identity_3x4(), custom_index: 0, mask: 0xff },
        );
        assert(entries@ =~= tlas_entries(instances@));
        return entries;
    }
    let ghost all = tlas_entries(instances@);
    let mut i: usize = 0;
    while i < instances.len()
        invariant
            i <= instances.len(),
            instances.len() > 0,
            all == tlas_entries(instances@),
            entries@ == all.take(i as int),
        decreases instances.len() - i,
    {
        let instance = &instances[i];
        entries.push(
            TlasEntry {
                blas: instance.mesh_id,
                transform: transform_3x4(&instance.object_to_world),
                custom_index: i as u32,
                mask: 0xff,
            },
        );
        assert(entries@ =~= all.take(i + 1));
        i = i + 1;
    }
    assert(all.take(i as int) =~= all);
    entries
}

fn make_indices(triangles: &Vec<RtTriangle>) -> (indices: Vec<u32>)
    ensures
        indices@ == triangle_indices(triangles@),
{
    let mut indices: Vec<u32> = Vec::new();
    if triangles.len() == 0 {
        indices.push(0);
        indices.push(0);
        indices.push(0);
        assert(indices@ =~= triangle_indices(triangles@));
        return indices;
    }
    let ghost all = triangle_indices(triangles@);
    let mut i: usize = 0;
    while i < triangles.len()
        invariant
            i <= triangles.len(),
            triangles.len() > 0,
            all == triangle_indices(triangles@),
            indices@ == all.take(i * 3),
        decreases triangles.len() - i,
    {
        let t = triangles[i];
        indices.push(t.v0);
        indices.push(t.v1);
        indices.push(t.v2);
        assert(all[i * 3] == t.v0);
        assert(all[i * 3 + 1] == t.v1);
        assert(all[i * 3 + 2] == t.v2);
        assert(indices@ =~= all.take((i + 1) * 3));
        i = i + 1;
    }
    assert(all.take(i * 3) =~= all);
    indices
}

fn make_blas(ranges: &Vec<RtMeshRange>) -> (blas: Vec<BlasInput>)
    requires
        index_ranges_fit(ranges@),
    ensures
        blas@ == scene_blas(ranges@),
{
    let mut blas: Vec<BlasInput> = Vec::new();
    if ranges.len() == 0 {
        blas.push(BlasInput { first_index: 0, index_count: 3 });
        assert(blas@ =~= scene_blas(ranges@));
        return blas;
    }
    let ghost all = scene_blas(ranges@);
    let mut m: usize = 0;
    while m < ranges.len()
        invariant
            m <= ranges.len(),
            ranges.len() > 0,
            index_ranges_fit(ranges@),
            all == scene_blas(ranges@),
            blas@ == all.take(m as int),
        decreases ranges.len() - m,
    {
        let range = ranges[m];
        assert(ranges@[m as int].tri_start * 3 <= u32::MAX);
        let triangles: u32 = if range.tri_count == 0 {
            1
        } else {
            range.tri_count
        };
        blas.push(BlasInput { first_index: range.tri_start * 3, index_count: triangles * 3 });
        assert(blas@ =~= all.take(m + 1));
        m = m + 1;
    }
    assert(all.take(m as int) =~= all);
    blas
}

fn are_meshes_within(scene: &RtScene) -> (r: bool)
    ensures
        r == meshes_within(*scene),
{
    let mut m: usize = 0;
    while m < scene.mesh_ranges.len()
        invariant
            m <= scene.mesh_ranges.len(),
            forall|k: int|
                0 <= k < m ==> vertices_within(
                    #[trigger] scene.mesh_ranges@[k],
                    scene.mesh_vertices@.len(),
                ),
        decreases scene.mesh_ranges.len() - m,
    {
        let range = scene.mesh_ranges[m];
        let end: u64 = range.vert_start as u64 + range.vert_count as u64;
        if end > u32::MAX as u64 || end > scene.mesh_vertices.len() as u64 {
            assert(!vertices_within(scene.mesh_ranges@[m as int], scene.mesh_vertices@.len()));
            return false;
        }
        m = m + 1;
    }
    true
}

fn are_instances_within(instances: &Vec<RtInstance>, n: usize) -> (r: bool)
    ensures
        r == instances_within(instances@, n as nat),
{
    let mut i: usize = 0;
    while i < instances.len()
        invariant
            i <= instances.len(),
            forall|k: int| 0 <= k < i ==> (#[trigger] instances@[k]).mesh_id < n,
        decreases instances.len() - i,
    {
        if instances[i].mesh_id as usize >= n {
            assert(!(instances@[i as int].mesh_id < n));
            return false;
        }
        i = i + 1;
    }
    true
}

fn is_order_within(order: &Vec<u32>, n: usize) -> (r: bool)
    ensures
        r == order_within(order@, n as nat),
{
    let mut i: usize = 0;
    while i < order.len()
        invariant
            i <= order.len(),
            forall|k: int| 0 <= k < i ==> (#[trigger] order@[k]) < n,
        decreases order.len() - i,
    {
        if order[i] as usize >= n {
            assert(!(order@[i as int] < n));
            return false;
        }
        i = i + 1;
    }
    true
}

fn do_index_ranges_fit(ranges: &Vec<RtMeshRange>) -> (r: bool)
    ensures
        r == index_ranges_fit(ranges@),
{
    let mut m: usize = 0;
    while m < ranges.len()
        invariant
            m <= ranges.len(),
            forall|k: int|
                0 <= k < m ==> (#[trigger] ranges@[k]).tri_start * 3 <= u32::MAX
                    && ranges@[k].tri_count * 3 <= u32::MAX,
        decreases ranges.len() - m,
    {
        let range = ranges[m];
        if range.tri_start as u64 * 3 > u32::MAX as u64 || range.tri_count as u64 * 3
            > u32::MAX as u64 {
            assert(!(ranges@[m as int].tri_start * 3 <= u32::MAX && ranges@[m as int].tri_count * 3
                <= u32::MAX));
            return false;
        }
        m = m + 1;
    }
    true
}

/// The node base of every mesh.
fn node_bases<N>(meshes: &Vec<MeshBvh<N>>) -> (bases: Vec<u32>)
    ensures
        bases@.len() == meshes@.len(),
        forall|m: int|
            0 <= m < meshes@.len() ==> #[trigger] bases@[m] == compute_desc(
                meshes@,
                m,
            ).node_offset,
{
    let mut bases: Vec<u32> = Vec::new();
    let mut total: u128 = 0;
    let mut m: usize = 0;
    assert(meshes@.take(0) =~= Seq::empty());
    while m < meshes.len()
        invariant
            m <= meshes.len(),
            total == blas_nodes(meshes@.take(m as int)).len(),
            total <= m * (u64::MAX as int),
            bases@.len() == m,
            forall|k: int|
                0 <= k < m ==> #[trigger] bases@[k] == compute_desc(meshes@, k).node_offset,
        decreases meshes.len() - m,
    {
        assert(meshes@.take(m + 1).drop_last() =~= meshes@.take(m as int));
        assert(m * (u64::MAX as int) + (u64::MAX as int) == (m + 1) * (u64::MAX as int))
            by (nonlinear_arith);
        assert((m + 1) * (u64::MAX as int) <= (u64::MAX as int) * (u64::MAX as int))
            by (nonlinear_arith)
            requires
                m + 1 <= u64::MAX,
        ;
        bases.push(total as u32);
        total = total + meshes[m].nodes.len() as u128;
        m = m + 1;
    }
    bases
}

fn does_bvh_fit<N>(scene: &RtScene, bvh: &SceneBvh<N>) -> (r: bool)
    ensures
        r == bvh_fits(*scene, *bvh),
{
    let count: usize = scene.instances.len();
    if bvh.meshes.len() != scene.mesh_ranges.len() || bvh.top.order.len() != count
        || !are_instances_within(
        &scene.instances,
        scene.mesh_ranges.len(),
    ) || !is_order_within(&bvh.top.order, count) {
        return false;
    }
    let capacity: u128 = if count == 0 {
        2
    } else {
        count as u128 * 2
    };
    if capacity > u32::MAX as u128 || bvh.top.nodes.len() as u128 > capacity {
        return false;
    }
    let bases = node_bases(&bvh.meshes);
    let ghost descs = compute_descs(bvh.meshes@);
    let mut i: usize = 0;
    while i < count
        invariant
            i <= count,
            count == scene.instances@.len(),
            capacity == top_capacity(scene.instances@.len()),
            capacity <= u32::MAX,
            descs == compute_descs(bvh.meshes@),
            bases@.len() == bvh.meshes@.len(),
            bases@.len() == scene.mesh_ranges@.len(),
            forall|m: int|
                0 <= m < bvh.meshes@.len() ==> #[trigger] bases@[m] == compute_desc(
                    bvh.meshes@,
                    m,
                ).node_offset,
            instances_within(scene.instances@, scene.mesh_ranges@.len()),
            forall|k: int|
                0 <= k < i ==> capacity + descs[(#[trigger] scene.instances@[k]).mesh_id
                    as int].node_offset <= u32::MAX,
        decreases count - i,
    {
        assert(scene.instances@[i as int].mesh_id < scene.mesh_ranges@.len());
        let base: u32 = bases[scene.instances[i].mesh_id as usize];
        assert(descs[scene.instances@[i as int].mesh_id as int].node_offset == base);
        if capacity + base as u128 > u32::MAX as u128 {
            return false;
        }
        i = i + 1;
    }
    true
}

fn do_bases_fit(
    instances: &Vec<RtInstance>,
    descs: &Vec<RtMeshDesc>,
    capacity: u32,
) -> (r: bool)
    requires
        instances_within(instances@, descs@.len()),
    ensures
        r == bases_fit(instances@, descs@, capacity),
{
    let mut i: usize = 0;
    while i < instances.len()
        invariant
            i <= instances.len(),
            instances_within(instances@, descs@.len()),
            forall|k: int|
                0 <= k < i ==> capacity + descs@[(#[trigger] instances@[k]).mesh_id
                    as int].node_offset <= u32::MAX,
        decreases instances.len() - i,
    {
        assert(instances@[i as int].mesh_id < descs@.len());
        let base: u32 = descs[instances[i].mesh_id as usize].node_offset;
        if base > u32::MAX - capacity {
            assert(!(capacity + descs@[instances@[i as int].mesh_id as int].node_offset
                <= u32::MAX));
            return false;
        }
        i = i + 1;
    }
    true
}

/// Whether the scene can be laid out for `backend` with the BVHs `bvh`.
pub fn can_build<N>(scene: &RtScene, backend: RayBackend, bvh: &SceneBvh<N>) -> (r: bool)
    ensures
        r == buildable(*scene, backend, *bvh),
{
    if !are_meshes_within(scene) {
        return false;
    }
    match backend {
        RayBackend::Software => does_bvh_fit(scene, bvh),
        RayBackend::Hardware => {
            let structures: usize = if scene.mesh_ranges.len() == 0 {
                1
            } else {
                scene.mesh_ranges.len()
            };
            are_instances_within(&scene.instances, structures) && do_index_ranges_fit(
                &scene.mesh_ranges,
            )
        },
    }
}

impl<N> GpuScene<N> {
    /// Whether the instances of this scene can be moved.
    pub fn is_consistent(&self) -> (r: bool)
        ensures
            r == self@.consistent(),
    {
        match self.backend {
            RayBackend::Software => are_instances_within(
                &self.template_instances,
                self.mesh_descs.len(),
            ) && self.instances.len() == self.template_instances.len() && self.mesh_aabbs.len()
                == self.mesh_descs.len() && do_bases_fit(
                &self.template_instances,
                &self.mesh_descs,
                self.tlas_capacity,
            ) && self.tlas_capacity as usize <= self.bvh.len(),
            RayBackend::Hardware => are_instances_within(&self.template_instances, self.blas.len())
                && self.template_instances.len() <= self.instances.len() && match &self.tlas {
                Some(entries) => self.template_instances.len() <= entries.len(),
                None => true,
            },
        }
    }

    /// Whether an update to `count` placements may be tried with the top level `top`. The
    /// hardware backend does not read `top`.
    pub fn accepts(&self, count: usize, top: &TopBvh<N>) -> (r: bool)
        ensures
            r == self@.takes(count as nat, *top),
    {
        if !self.is_consistent() {
            return false;
        }
        match self.backend {
            RayBackend::Software => count != self.template_instances.len() || (top.order.len()
                == count && is_order_within(&top.order, count)),
            RayBackend::Hardware => true,
        }
    }
}

impl<N: Copy> GpuScene<N> {
    /// Lays the scene out for the given backend. `empty_node` fills unused nodes.
    /// The hardware backend does not read `bvh`.
    pub fn build(
        scene: &RtScene,
        backend: RayBackend,
        bvh: &SceneBvh<N>,
        empty_node: N,
    ) -> (gpu: GpuScene<N>)
        requires
            buildable(*scene, backend, *bvh),
        ensures
            gpu@ == gpu_model(*scene, backend, *bvh, empty_node),
            gpu@.consistent(),
    {
        match backend {
            RayBackend::Software => Self::build_compute(scene, bvh, empty_node),
            RayBackend::Hardware => Self::build_hardware(scene, empty_node),
        }
    }

    /// Lays the scene out for the compute backend.
    pub fn build_compute(scene: &RtScene, bvh: &SceneBvh<N>, empty_node: N) -> (gpu: GpuScene<N>)
        requires
            meshes_within(*scene),
            bvh_fits(*scene, *bvh),
        ensures
            gpu@ == compute_model(*scene, *bvh, empty_node),
            gpu@.consistent(),
    {
        let mut nodes: Vec<N> = Vec::new();
        let mut triangles: Vec<RtTriangle> = Vec::new();
        let mut descs: Vec<RtMeshDesc> = Vec::new();
        let ghost all_descs = compute_descs(bvh.meshes@);
        let mut m: usize = 0;
        assert(bvh.meshes@.take(0) =~= Seq::empty());
        while m < bvh.meshes.len()
            invariant
                m <= bvh.meshes.len(),
                all_descs == compute_descs(bvh.meshes@),
                nodes@ == blas_nodes(bvh.meshes@.take(m as int)),
                triangles@ == ordered_triangles(bvh.meshes@.take(m as int)),
                descs@ == all_descs.take(m as int),
            decreases bvh.meshes.len() - m,
        {
            let mesh = &bvh.meshes[m];
            descs.push(
                RtMeshDesc {
                    node_offset: nodes.len() as u32,
                    tri_offset: triangles.len() as u32,
                    _pad: [0, 0],
                },
            );
            append_all(&mut nodes, &mesh.nodes);
            append_all(&mut triangles, &mesh.triangles);
            assert(bvh.meshes@.take(m + 1).drop_last() =~= bvh.meshes@.take(m as int));
            assert(descs@ =~= all_descs.take(m + 1));
            m = m + 1;
        }
        assert(bvh.meshes@.take(m as int) =~= bvh.meshes@);
        assert(all_descs.take(m as int) =~= all_descs);
        let count: usize = scene.instances.len();
        let capacity: u32 = if count == 0 {
            2
        } else {
            count as u32 * 2
        };
        let mut merged = copy_all(&bvh.top.nodes);
        pad(&mut merged, capacity as usize, empty_node);
        append_all(&mut merged, &nodes);
        let instances = place_instances(&scene.instances, &bvh.top.order, &descs, capacity);
        let gpu = GpuScene {
            vertices: copy_all(&scene.mesh_vertices),
            triangles,
            materials: copy_all(&scene.materials),
            lights: copy_all(&scene.lights),
            emitters: copy_all(&scene.emitters),
            bvh: merged,
            meshes: copy_all(&descs),
            instances,
            textures: copy_all(&scene.textures),
            num_triangles: scene.mesh_triangles.len() as u32,
            num_lights: scene.lights.len() as u32,
            num_emitters: scene.emitters.len() as u32,
            has_translucent: has_translucent_material(&scene.materials),
            has_non_shadow_caster: has_shadowless_material(&scene.materials),
            geom_hash: scene.geom_hash,
            xform_hash: scene.xform_hash,
            backend: RayBackend::Software,
            template_instances: copy_all(&scene.instances),
            mesh_aabbs: mesh_aabbs(scene),
            mesh_descs: descs,
            tlas_capacity: capacity,
            indices: Vec::new(),
            blas: Vec::new(),
            tlas: None,
        };
        assert(gpu@ =~= compute_model(*scene, *bvh, empty_node));
        gpu
    }

    /// Lays the scene out for the hardware backend.
    pub fn build_hardware(scene: &RtScene, empty_node: N) -> (gpu: GpuScene<N>)
        requires
            meshes_within(*scene),
            instances_within(scene.instances@, scene_blas(scene.mesh_ranges@).len()),
            index_ranges_fit(scene.mesh_ranges@),
        ensures
            gpu@ == hardware_model(*scene, empty_node),
            gpu@.consistent(),
    {
        let mut vertices = copy_all(&scene.mesh_vertices);
        if vertices.len() < 3 {
            pad(&mut vertices, 3, RtVertex::default());
        }
        let ghost all_descs = scene.mesh_ranges@.map_values(
            |range: RtMeshRange| hardware_desc(range),
        );
        let mut descs: Vec<RtMeshDesc> = Vec::new();
        let mut m: usize = 0;
        while m < scene.mesh_ranges.len()
            invariant
                m <= scene.mesh_ranges.len(),
                all_descs == scene.mesh_ranges@.map_values(
                    |range: RtMeshRange| hardware_desc(range),
                ),
                descs@ == all_descs.take(m as int),
            decreases scene.mesh_ranges.len() - m,
        {
            descs.push(
                RtMeshDesc {
                    node_offset: 0,
                    tri_offset: scene.mesh_ranges[m].tri_start,
                    _pad: [0, 0],
                },
            );
            assert(descs@ =~= all_descs.take(m + 1));
            m = m + 1;
        }
        assert(all_descs.take(m as int) =~= all_descs);
        let mut bvh: Vec<N> = Vec::new();
        bvh.push(empty_node);
        assert(bvh@ =~= seq![empty_node]);
        let gpu = GpuScene {
            vertices,
            triangles: copy_all(&scene.mesh_triangles),
            materials: copy_all(&scene.materials),
            lights: copy_all(&scene.lights),
            emitters: copy_all(&scene.emitters),
            bvh,
            meshes: copy_all(&descs),
            instances: copy_all(&scene.instances),
            textures: copy_all(&scene.textures),
            num_triangles: scene.mesh_triangles.len() as u32,
            num_lights: scene.lights.len() as u32,
            num_emitters: scene.emitters.len() as u32,
            has_translucent: has_translucent_material(&scene.materials),
            has_non_shadow_caster: has_shadowless_material(&scene.materials),
            geom_hash: scene.geom_hash,
            xform_hash: scene.xform_hash,
            backend: RayBackend::Hardware,
            template_instances: copy_all(&scene.instances),
            mesh_aabbs: mesh_aabbs(scene),
            mesh_descs: descs,
            tlas_capacity: 0,
            indices: make_indices(&scene.mesh_triangles),
            blas: make_blas(&scene.mesh_ranges),
            tlas: Some(make_tlas_entries(&scene.instances)),
        };
        assert(gpu@ =~= hardware_model(*scene, empty_node));
        gpu
    }

    /// Moves the instances to new placements, given in the order of the scene, and
    /// rewrites the top level alone. Every mesh buffer and bottom-level structure
    /// stays as it is. `top` is a BVH over the moved instances (compute backend).
    ///
    /// Returns `false` where the number of placements is not that of the instances,
    /// where the top level outgrows its region, or where the hardware backend has no
    /// top-level structure: the scene must then be built anew.
    pub fn update_transforms(
        &mut self,
        placements: &Vec<Placement>,
        top: &TopBvh<N>,
        empty_node: N,
        xform_hash: u64,
    ) -> (applied: bool)
        requires
            old(self)@.takes(placements@.len(), *top),
        ensures
            applied == old(self)@.updatable(placements@.len(), top.nodes@.len()),
            final(self)@ == old(self)@.updated(placements@, *top, empty_node, xform_hash),
            final(self)@.consistent(),
    {
        if placements.len() != self.template_instances.len() {
            return false;
        }
        let ghost before = old(self)@;
        let ghost template = moved_instances(before.template_instances, placements@);
        let mut i: usize = 0;
        while i < placements.len()
            invariant
                i <= placements.len(),
                placements@.len() == before.template_instances.len(),
                before == old(self)@,
                self@ == (GpuModel { template_instances: self@.template_instances, ..before }),
                self@.template_instances.len() == template.len(),
                template == moved_instances(before.template_instances, placements@),
                forall|j: int| 0 <= j < i ==> self@.template_instances[j] == template[j],
                forall|j: int|
                    i <= j < template.len() ==> self@.template_instances[j]
                        == before.template_instances[j],
            decreases placements.len() - i,
        {
            let mut instance = self.template_instances[i];
            instance.object_to_world = placements[i].object_to_world;
            instance.world_to_object = placements[i].world_to_object;
            self.template_instances[i] = instance;
            assert(self@ =~= (GpuModel { template_instances: self@.template_instances, ..before }));
            i = i + 1;
        }
        assert(self@.template_instances =~= template);
        proof {
            lemma_moving_keeps_meshes(before.template_instances, placements@);
        }
        match self.backend {
            RayBackend::Software => {
                if top.nodes.len() > self.tlas_capacity as usize {
                    return false;
                }
                let mut nodes = copy_all(&top.nodes);
                pad(&mut nodes, self.tlas_capacity as usize, empty_node);
                overwrite(&mut self.bvh, &nodes);
                let instances = place_instances(
                    &self.template_instances,
                    &top.order,
                    &self.mesh_descs,
                    self.tlas_capacity,
                );
                overwrite(&mut self.instances, &instances);
            },
            RayBackend::Hardware => {
                if self.tlas.is_none() {
                    return false;
                }
                if self.template_instances.len() > 0 {
                    overwrite(&mut self.instances, &self.template_instances);
                    let entries = make_tlas_entries(&self.template_instances);
                    match self.tlas.take() {
                        Some(mut tlas) => {
                            overwrite(&mut tlas, &entries);
                            self.tlas = Some(tlas);
                        },
                        None => {},
                    }
                }
            },
        }
        self.xform_hash = xform_hash;
        assert(self@ =~= before.updated(placements@, *top, empty_node, xform_hash));
        true
    }
}

/// Moving instances leaves their meshes, materials and bases alone.
pub proof fn lemma_moving_keeps_meshes(instances: Seq<RtInstance>, placements: Seq<Placement>)
    ensures
        ({
            let moved = moved_instances(instances, placements);
            &&& moved.len() == instances.len()
            &&& forall|n: nat|
                #[trigger] instances_within(instances, n) ==> instances_within(moved, n)
            &&& forall|descs: Seq<RtMeshDesc>, capacity: u32|
                #[trigger] bases_fit(instances, descs, capacity) ==> bases_fit(
                    moved,
                    descs,
                    capacity,
                )
        }),
{
    let moved = moved_instances(instances, placements);
    assert forall|n: nat| #[trigger] instances_within(instances, n) implies instances_within(
        moved,
        n,
    ) by {
        assert forall|i: int| 0 <= i < moved.len() implies (#[trigger] moved[i]).mesh_id < n by {
            assert(instances[i].mesh_id < n);
        }
    }
    assert forall|descs: Seq<RtMeshDesc>, capacity: u32| #[trigger]
        bases_fit(instances, descs, capacity) implies bases_fit(moved, descs, capacity) by {
        assert forall|i: int| 0 <= i < moved.len() implies capacity + descs[(
        #[trigger] moved[i]).mesh_id as int].node_offset <= u32::MAX by {
            assert(capacity + descs[instances[i].mesh_id as int].node_offset <= u32::MAX);
        }
    }
}

} // verus!
