//! The scene on the GPU.

use raytracer::float::F32;
use raytracer::gpu_scene::{
    can_build, identity_3x4, transform_3x4, GpuScene, MeshBvh, Placement, RayBackend, SceneBvh,
    TopBvh,
};
use raytracer::records::{
    RtInstance, RtMaterial, RtMeshRange, RtScene, RtTriangle, RtVertex,
};
use raytracer::scene::{Mat4, TextureHandle};

fn f(v: f32) -> F32 {
    F32::from_bits(v.to_bits())
}

fn matrix(tx: f32) -> Mat4 {
    let (o, l) = (f(0.0), f(1.0));
    [[l, o, o, o], [o, l, o, o], [o, o, l, o], [f(tx), o, o, l]]
}

fn tri(v0: u32, v1: u32, v2: u32) -> RtTriangle {
    RtTriangle { v0, v1, v2, material_id: 0 }
}

fn instance(mesh_id: u32, material_id: u32, x: f32) -> RtInstance {
    RtInstance {
        world_to_object: matrix(-x),
        object_to_world: matrix(x),
        mesh_id,
        material_id,
        node_offset: 0,
        tri_offset: 0,
    }
}

fn vertex(x: f32, y: f32, z: f32) -> RtVertex {
    RtVertex { position: [f(x), f(y), f(z)], ..RtVertex::default() }
}

fn scene() -> RtScene {
    RtScene {
        mesh_vertices: vec![
            vertex(0.0, 0.0, 0.0),
            vertex(1.0, 0.0, 0.0),
            vertex(0.0, 1.0, 0.0),
            vertex(0.0, 0.0, 0.0),
            vertex(2.0, 0.0, 0.0),
            vertex(2.0, 2.0, 0.0),
            vertex(0.0, 2.0, -1.0),
        ],
        mesh_triangles: vec![tri(0, 1, 2), tri(3, 4, 5), tri(3, 5, 6)],
        mesh_ranges: vec![
            RtMeshRange { vert_start: 0, vert_count: 3, tri_start: 0, tri_count: 1 },
            RtMeshRange { vert_start: 3, vert_count: 4, tri_start: 1, tri_count: 2 },
        ],
        instances: vec![instance(0, 0, 1.0), instance(1, 1, 2.0), instance(0, 2, 3.0)],
        materials: vec![RtMaterial::default(); 3],
        textures: vec![TextureHandle { address: 5 }],
        geom_hash: 11,
        xform_hash: 22,
        ..RtScene::default()
    }
}

fn bvh() -> SceneBvh<u32> {
    SceneBvh {
        meshes: vec![
            MeshBvh { nodes: vec![100], triangles: vec![tri(0, 1, 2)] },
            MeshBvh { nodes: vec![200, 201, 202], triangles: vec![tri(3, 5, 6), tri(3, 4, 5)] },
        ],
        top: TopBvh { nodes: vec![10, 11, 12], order: vec![2, 0, 1] },
    }
}

fn triple(t: &RtTriangle) -> (u32, u32, u32) {
    (t.v0, t.v1, t.v2)
}

#[test]
fn compute_layout_puts_the_top_level_first() {
    assert!(can_build(&scene(), RayBackend::Software, &bvh()));
    let gpu = GpuScene::build(&scene(), RayBackend::Software, &bvh(), 0);
    assert_eq!(gpu.tlas_capacity, 6);
    assert_eq!(gpu.bvh, vec![10, 11, 12, 0, 0, 0, 100, 200, 201, 202]);
    let order: Vec<_> = gpu.triangles.iter().map(triple).collect();
    assert_eq!(order, vec![(0, 1, 2), (3, 5, 6), (3, 4, 5)]);
    let descs: Vec<_> = gpu.meshes.iter().map(|d| (d.node_offset, d.tri_offset)).collect();
    assert_eq!(descs, vec![(0, 0), (1, 1)]);
    let bases: Vec<_> = gpu
        .instances
        .iter()
        .map(|i| (i.mesh_id, i.material_id, i.node_offset, i.tri_offset))
        .collect();
    assert_eq!(bases, vec![(0, 2, 6, 0), (0, 0, 6, 0), (1, 1, 7, 1)]);
    assert_eq!(gpu.num_triangles, 3);
    assert_eq!((gpu.num_lights, gpu.num_emitters), (0, 0));
    assert_eq!((gpu.geom_hash, gpu.xform_hash), (11, 22));
    assert!(gpu.tlas.is_none());
    assert_eq!(gpu.textures.len(), 1);
    assert_eq!(gpu.backend, RayBackend::Software);
}

#[test]
fn compute_instances_find_the_nodes_of_their_meshes() {
    let gpu = GpuScene::build(&scene(), RayBackend::Software, &bvh(), 0);
    for i in &gpu.instances {
        let mesh = &bvh().meshes[i.mesh_id as usize];
        let start = i.node_offset as usize;
        assert_eq!(gpu.bvh[start..start + mesh.nodes.len()], mesh.nodes[..]);
        let first = i.tri_offset as usize;
        assert_eq!(triple(&gpu.triangles[first]), triple(&mesh.triangles[0]));
    }
}

#[test]
fn meshes_keep_their_boxes() {
    let gpu = GpuScene::build(&scene(), RayBackend::Software, &bvh(), 0);
    assert_eq!(gpu.mesh_aabbs.len(), 2);
    assert_eq!(gpu.mesh_aabbs[1].hi.x, f(2.0));
    assert_eq!(gpu.mesh_aabbs[1].lo.z, f(-1.0));
}

#[test]
fn empty_scene_has_room_for_a_top_level() {
    let none = SceneBvh { meshes: vec![], top: TopBvh { nodes: vec![9u32], order: vec![] } };
    let empty = RtScene::default();
    assert!(can_build(&empty, RayBackend::Software, &none));
    let gpu = GpuScene::build(&empty, RayBackend::Software, &none, 7);
    assert_eq!(gpu.tlas_capacity, 2);
    assert_eq!(gpu.bvh, vec![9, 7]);
    assert!(gpu.instances.is_empty());
}

#[test]
fn material_flags_are_those_of_some_material() {
    let mut s = scene();
    let gpu = GpuScene::build(&s, RayBackend::Software, &bvh(), 0);
    assert!(!gpu.has_translucent && !gpu.has_non_shadow_caster);
    s.materials[2].base_color[3] = f(0.99);
    s.materials[1].casts_shadows = 0;
    let gpu = GpuScene::build(&s, RayBackend::Hardware, &bvh(), 0);
    assert!(gpu.has_translucent && gpu.has_non_shadow_caster);
    s.materials[2].base_color[3] = f(f32::NAN);
    let gpu = GpuScene::build(&s, RayBackend::Software, &bvh(), 0);
    assert!(!gpu.has_translucent);
}

#[test]
fn hardware_layout_keeps_the_order_of_the_scene() {
    assert!(can_build(&scene(), RayBackend::Hardware, &bvh()));
    let gpu = GpuScene::build(&scene(), RayBackend::Hardware, &bvh(), 42);
    assert_eq!(gpu.bvh, vec![42]);
    assert_eq!(gpu.indices, vec![0, 1, 2, 3, 4, 5, 3, 5, 6]);
    let blas: Vec<_> = gpu.blas.iter().map(|b| (b.first_index, b.index_count)).collect();
    assert_eq!(blas, vec![(0, 3), (3, 6)]);
    let order: Vec<_> = gpu.triangles.iter().map(triple).collect();
    assert_eq!(order, vec![(0, 1, 2), (3, 4, 5), (3, 5, 6)]);
    let descs: Vec<_> = gpu.meshes.iter().map(|d| (d.node_offset, d.tri_offset)).collect();
    assert_eq!(descs, vec![(0, 0), (0, 1)]);
    let tlas = gpu.tlas.as_ref().unwrap();
    assert_eq!(tlas.len(), 3);
    for (i, e) in tlas.iter().enumerate() {
        assert_eq!(e.custom_index, i as u32);
        assert_eq!(e.mask, 0xff);
        assert_eq!(e.blas, gpu.instances[i].mesh_id);
        assert_eq!(e.transform, transform_3x4(&gpu.instances[i].object_to_world));
    }
    assert_eq!(gpu.tlas_capacity, 0);
}

#[test]
fn hardware_layout_of_an_empty_scene_is_degenerate() {
    let none: SceneBvh<u32> =
        SceneBvh { meshes: vec![], top: TopBvh { nodes: vec![], order: vec![] } };
    let gpu = GpuScene::build(&RtScene::default(), RayBackend::Hardware, &none, 0);
    assert_eq!(gpu.vertices.len(), 3);
    assert_eq!(gpu.indices, vec![0, 0, 0]);
    assert_eq!((gpu.blas[0].first_index, gpu.blas[0].index_count), (0, 3));
    let tlas = gpu.tlas.unwrap();
    assert_eq!(tlas.len(), 1);
    assert_eq!((tlas[0].blas, tlas[0].custom_index, tlas[0].mask), (0, 0, 0xff));
    assert_eq!(tlas[0].transform, identity_3x4());
}

#[test]
fn mesh_without_triangles_reads_one() {
    let mut s = scene();
    s.mesh_ranges[1].tri_count = 0;
    let gpu = GpuScene::build(&s, RayBackend::Hardware, &bvh(), 0);
    assert_eq!((gpu.blas[1].first_index, gpu.blas[1].index_count), (3, 3));
}

#[test]
fn rows_of_a_matrix() {
    let mut m = [[f(0.0); 4]; 4];
    for c in 0..4 {
        for r in 0..4 {
            m[c][r] = f((10 * c + r) as f32);
        }
    }
    let want = [0.0, 10.0, 20.0, 30.0, 1.0, 11.0, 21.0, 31.0, 2.0, 12.0, 22.0, 32.0].map(f);
    assert_eq!(transform_3x4(&m), want);
    let identity = [1.0, 0.0, 0.0, 0.0, 0.0, 1.0, 0.0, 0.0, 0.0, 0.0, 1.0, 0.0].map(f);
    assert_eq!(identity_3x4(), identity);
}

#[test]
fn triangles_of_a_mesh() {
    let t: Vec<_> = scene().triangles_of(1).iter().map(triple).collect();
    assert_eq!(t, vec![(3, 4, 5), (3, 5, 6)]);
}

#[test]
fn scenes_that_do_not_fit_are_refused() {
    let mut s = scene();
    s.mesh_ranges[1].vert_count = 5;
    assert!(!can_build(&s, RayBackend::Software, &bvh()));
    assert!(!can_build(&s, RayBackend::Hardware, &bvh()));
    let mut s = scene();
    s.instances[0].mesh_id = 2;
    assert!(!can_build(&s, RayBackend::Software, &bvh()));
    assert!(!can_build(&s, RayBackend::Hardware, &bvh()));
    let mut b = bvh();
    b.top.order = vec![3, 0, 1];
    assert!(!can_build(&scene(), RayBackend::Software, &b));
    assert!(can_build(&scene(), RayBackend::Hardware, &b));
    let mut b = bvh();
    b.top.order = vec![0, 1];
    assert!(!can_build(&scene(), RayBackend::Software, &b));
    let mut b = bvh();
    b.top.nodes = vec![0; 7];
    assert!(!can_build(&scene(), RayBackend::Software, &b));
    let mut b = bvh();
    b.meshes.pop();
    assert!(!can_build(&scene(), RayBackend::Software, &b));
    let mut s = scene();
    s.mesh_ranges[1].tri_start = u32::MAX / 2;
    assert!(!can_build(&s, RayBackend::Hardware, &bvh()));
}

fn placements(xs: &[f32]) -> Vec<Placement> {
    xs.iter()
        .map(|x| Placement { object_to_world: matrix(*x), world_to_object: matrix(-*x) })
        .collect()
}

fn moved_scene(xs: &[f32], hash: u64) -> RtScene {
    let mut s = scene();
    for (i, x) in xs.iter().enumerate() {
        s.instances[i].object_to_world = matrix(*x);
        s.instances[i].world_to_object = matrix(-*x);
    }
    s.xform_hash = hash;
    s
}

#[test]
fn software_update_is_a_rebuild() {
    let xs = [7.0, 8.0, 9.0];
    let top = TopBvh { nodes: vec![1, 2, 3, 4, 5], order: vec![1, 2, 0] };
    let mut gpu = GpuScene::build(&scene(), RayBackend::Software, &bvh(), 0);
    assert!(gpu.accepts(3, &top));
    assert!(gpu.update_transforms(&placements(&xs), &top, 0, 33));
    let rebuilt = SceneBvh { meshes: bvh().meshes, top };
    let want = GpuScene::build(&moved_scene(&xs, 33), RayBackend::Software, &rebuilt, 0);
    assert_eq!(format!("{gpu:?}"), format!("{want:?}"));
    assert_eq!(gpu.bvh, vec![1, 2, 3, 4, 5, 0, 100, 200, 201, 202]);
}

#[test]
fn hardware_update_is_a_rebuild() {
    let xs = [7.0, 8.0, 9.0];
    let top = TopBvh { nodes: vec![], order: vec![] };
    let mut gpu = GpuScene::build(&scene(), RayBackend::Hardware, &bvh(), 0);
    assert!(gpu.accepts(3, &top));
    assert!(gpu.update_transforms(&placements(&xs), &top, 0, 33));
    let want = GpuScene::build(&moved_scene(&xs, 33), RayBackend::Hardware, &bvh(), 0);
    assert_eq!(format!("{gpu:?}"), format!("{want:?}"));
}

#[test]
fn last_of_two_updates_shows() {
    let mut once = GpuScene::build(&scene(), RayBackend::Software, &bvh(), 0);
    let mut twice = GpuScene::build(&scene(), RayBackend::Software, &bvh(), 0);
    let first = TopBvh { nodes: vec![1, 2], order: vec![2, 1, 0] };
    let second = TopBvh { nodes: vec![3], order: vec![0, 1, 2] };
    assert!(twice.update_transforms(&placements(&[1.0, 1.0, 1.0]), &first, 0, 1));
    assert!(twice.update_transforms(&placements(&[2.0, 3.0, 4.0]), &second, 0, 2));
    assert!(once.update_transforms(&placements(&[2.0, 3.0, 4.0]), &second, 0, 2));
    assert_eq!(format!("{once:?}"), format!("{twice:?}"));
}

#[test]
fn update_of_the_wrong_number_changes_nothing() {
    for backend in [RayBackend::Software, RayBackend::Hardware] {
        let mut gpu = GpuScene::build(&scene(), backend, &bvh(), 0);
        let before = format!("{gpu:?}");
        assert!(!gpu.update_transforms(&placements(&[1.0]), &bvh().top, 0, 99));
        assert_eq!(format!("{gpu:?}"), before);
    }
}

#[test]
fn top_level_that_outgrows_its_region_is_refused() {
    let mut gpu = GpuScene::build(&scene(), RayBackend::Software, &bvh(), 0);
    let top = TopBvh { nodes: vec![5; 7], order: vec![0, 1, 2] };
    assert!(!gpu.update_transforms(&placements(&[1.0, 2.0, 3.0]), &top, 0, 99));
    assert_eq!(gpu.xform_hash, 22);
    assert_eq!(gpu.bvh, vec![10, 11, 12, 0, 0, 0, 100, 200, 201, 202]);
    let exact = TopBvh { nodes: vec![5; 6], order: vec![0, 1, 2] };
    assert!(gpu.update_transforms(&placements(&[1.0, 2.0, 3.0]), &exact, 0, 99));
    assert_eq!(gpu.xform_hash, 99);
}

#[test]
fn hardware_scene_without_top_level_is_refused() {
    let mut gpu = GpuScene::build(&scene(), RayBackend::Hardware, &bvh(), 0);
    gpu.tlas = None;
    assert!(!gpu.update_transforms(&placements(&[1.0, 2.0, 3.0]), &bvh().top, 0, 99));
    assert_eq!(gpu.xform_hash, 22);
}

#[test]
fn empty_hardware_scene_only_takes_the_hash() {
    let none: SceneBvh<u32> =
        SceneBvh { meshes: vec![], top: TopBvh { nodes: vec![], order: vec![] } };
    let mut gpu = GpuScene::build(&RtScene::default(), RayBackend::Hardware, &none, 0);
    assert!(gpu.update_transforms(&vec![], &none.top, 0, 5));
    assert_eq!(gpu.xform_hash, 5);
    assert_eq!(gpu.tlas.unwrap().len(), 1);
}

#[test]
fn foreign_top_levels_are_not_accepted() {
    let gpu = GpuScene::build(&scene(), RayBackend::Software, &bvh(), 0);
    assert!(!gpu.accepts(3, &TopBvh { nodes: vec![], order: vec![0, 1, 3] }));
    assert!(!gpu.accepts(3, &TopBvh { nodes: vec![], order: vec![0, 0, 0, 0] }));
    assert!(!gpu.accepts(3, &TopBvh { nodes: vec![], order: vec![0] }));
    assert!(gpu.accepts(3, &TopBvh { nodes: vec![], order: vec![2, 1, 0] }));
    assert!(gpu.accepts(2, &TopBvh { nodes: vec![], order: vec![] }));
    let mut broken = GpuScene::build(&scene(), RayBackend::Software, &bvh(), 0);
    assert!(broken.is_consistent());
    broken.template_instances[0].mesh_id = 9;
    assert!(!broken.is_consistent());
    assert!(!broken.accepts(3, &TopBvh { nodes: vec![], order: vec![2, 1, 0] }));
}
