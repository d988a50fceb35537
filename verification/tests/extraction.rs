//! Extraction of the scene.

use raytracer::bake::{
    instance_inputs, BakedInstance, BakedObject, MorphedVertices, SkinnedVertex,
};
use raytracer::content::scene_hashes;
use raytracer::float::F32;
use raytracer::gather::{can_gather, can_place, collected_to_rt, gather, gather_transforms};
use raytracer::records::{RT_LIGHT_DIRECTIONAL, RT_LIGHT_POINT, RT_LIGHT_SPOT};
use raytracer::scene::{
    CollectedLight, Color, Fog, GpuMesh3d, InstancesBuffer3d, LightCollection, LightType, Mat4,
    MeshHandle, MorphTargets, Object3d, ObjectData3d, Pose3, Quat, SceneNode3d, Skin,
    TextureHandle, Vec2, Vec3,
};

fn f(v: f32) -> F32 {
    F32::from_bits(v.to_bits())
}

fn v3(x: f32, y: f32, z: f32) -> Vec3 {
    Vec3 { x: f(x), y: f(y), z: f(z) }
}

fn grey(r: f32, g: f32, b: f32, a: f32) -> Color {
    Color { r: f(r), g: f(g), b: f(b), a: f(a) }
}

fn matrix(tx: f32, ty: f32, tz: f32) -> Mat4 {
    let (o, l) = (f(0.0), f(1.0));
    [[l, o, o, o], [o, l, o, o], [o, o, l, o], [f(tx), f(ty), f(tz), l]]
}

fn object_data() -> ObjectData3d {
    ObjectData3d {
        surface_rendering_active: true,
        render_layers: 1,
        color: grey(0.5, 0.25, 1.0, 1.0),
        emissive: grey(0.0, 0.0, 0.0, 1.0),
        metallic: f(0.1),
        roughness: f(0.2),
        ior: f(1.4),
        transmission: f(0.3),
        specular_tint: grey(0.9, 0.8, 0.7, 1.0),
        bsdf_tag: 3,
        subsurface: f(0.4),
        subsurface_radius: f(0.6),
        reflectance: f(0.5),
        light_layers: 7,
        casts_shadows: true,
        attenuation_color: grey(0.2, 0.4, 0.6, 1.0),
        attenuation_distance: f(f32::INFINITY),
        clearcoat: f(0.05),
        clearcoat_roughness: f(0.15),
        texture: TextureHandle { address: 0x1_0000_0010 },
        normal_map: None,
        metallic_roughness_map: None,
        emissive_map: None,
        has_skin: false,
        skin: None,
        morph_weights: vec![],
    }
}

fn mesh(address: u64, coords: Vec<Vec3>, faces: Vec<[u32; 3]>) -> GpuMesh3d {
    GpuMesh3d {
        handle: MeshHandle { address },
        coords: Some(coords),
        faces: Some(faces),
        normals: None,
        uvs: None,
        has_skin_vertices: false,
        skin_joints: None,
        skin_weights: None,
        morph: None,
    }
}

fn triangle() -> GpuMesh3d {
    mesh(1, vec![v3(0.0, 0.0, 0.0), v3(1.0, 0.0, 0.0), v3(0.0, 1.0, 0.0)], vec![[0, 1, 2]])
}

fn copies(count: usize) -> InstancesBuffer3d {
    InstancesBuffer3d { count, positions: None, deformations: None, colors: None }
}

fn node(mesh: GpuMesh3d, count: usize) -> SceneNode3d {
    SceneNode3d {
        pose: Pose3 {
            translation: v3(0.0, 0.0, 0.0),
            rotation: Quat { x: f(0.0), y: f(0.0), z: f(0.0), w: f(1.0) },
        },
        scale: v3(1.0, 1.0, 1.0),
        object: Some(Object3d { data: object_data(), mesh, instances: copies(count) }),
    }
}

fn lights() -> LightCollection {
    LightCollection {
        lights: vec![],
        ambient: f(0.2),
        ambient_color: grey(1.0, 1.0, 1.0, 1.0),
        fog: Fog { color: grey(0.5, 0.5, 0.5, 0.0), params: [f(0.0); 4] },
    }
}

fn placed_at(m: Mat4, inverse: Mat4, vertices: usize) -> BakedInstance {
    BakedInstance {
        object_to_world: m,
        world_to_object: inverse,
        base_color: [f(0.5), f(0.25), f(1.0), f(1.0)],
        world_positions: (0..vertices).map(|i| v3(i as f32, 50.0, 60.0)).collect(),
    }
}

fn baked(count: usize) -> BakedObject {
    BakedObject {
        morphed: None,
        skinned: None,
        emissive_sum: f(0.0),
        instances: (0..count)
            .map(|i| placed_at(matrix(i as f32, 0.0, 0.0), matrix(-(i as f32), 0.0, 0.0), 0))
            .collect(),
    }
}

fn nothing() -> BakedObject {
    baked(0)
}

fn quad() -> GpuMesh3d {
    mesh(
        2,
        vec![v3(0.0, 0.0, 0.0), v3(1.0, 0.0, 0.0), v3(1.0, 1.0, 0.0), v3(0.0, 1.0, 0.0)],
        vec![[0, 1, 2], [0, 2, 3]],
    )
}

#[test]
fn meshes_are_stored_once_and_placed_by_instances() {
    let nodes = vec![node(triangle(), 2), node(quad(), 1)];
    let baked_objects = vec![baked(2), baked(1)];
    assert!(can_gather(&nodes, &baked_objects, 1));
    let scene = gather(&nodes, &baked_objects, &lights(), 1);
    assert!(!scene.is_empty());
    assert_eq!(scene.mesh_vertices.len(), 7);
    assert_eq!(scene.mesh_triangles.len(), 3);
    assert_eq!(scene.mesh_ranges.len(), 2);
    let (a, b) = (scene.mesh_ranges[0], scene.mesh_ranges[1]);
    assert_eq!((a.vert_start, a.vert_count, a.tri_start, a.tri_count), (0, 3, 0, 1));
    assert_eq!((b.vert_start, b.vert_count, b.tri_start, b.tri_count), (3, 4, 1, 2));
    let t = scene.mesh_triangles[2];
    assert_eq!((t.v0, t.v1, t.v2, t.material_id), (3, 5, 6, 0));
    assert_eq!(scene.instances.len(), 3);
    assert_eq!(scene.materials.len(), 3);
    for (i, mesh_id) in [0, 0, 1].iter().enumerate() {
        assert_eq!(scene.instances[i].mesh_id, *mesh_id);
        assert_eq!(scene.instances[i].material_id, i as u32);
        assert_eq!((scene.instances[i].node_offset, scene.instances[i].tri_offset), (0, 0));
    }
    assert_eq!(scene.instances[1].object_to_world, matrix(1.0, 0.0, 0.0));
    assert_eq!(scene.instances[1].world_to_object, matrix(-1.0, 0.0, 0.0));
    assert!(scene.emitters.is_empty());
}

#[test]
fn gathered_hashes_are_those_computed_without_gathering() {
    let nodes = vec![node(triangle(), 2), node(quad(), 0), node(quad(), 1)];
    let scene = gather(&nodes, &vec![baked(2), nothing(), baked(1)], &lights(), 1);
    assert_eq!((scene.geom_hash, scene.xform_hash), scene_hashes(&nodes, &lights(), 1));
}

#[test]
fn scene_globals_are_those_of_the_lights() {
    let mut l = lights();
    l.ambient_color = grey(0.1, 0.2, 0.3, 0.4);
    l.fog = Fog { color: grey(0.5, 0.6, 0.7, 0.8), params: [f(1.0), f(2.0), f(3.0), f(4.0)] };
    let scene = gather(&vec![], &vec![], &l, 1);
    assert!(scene.is_empty());
    assert_eq!(scene.ambient, f(0.2));
    assert_eq!(scene.ambient_color, [f(0.1), f(0.2), f(0.3)]);
    assert_eq!(scene.fog_color, [f(0.5), f(0.6), f(0.7), f(0.8)]);
    assert_eq!(scene.fog_params, [f(1.0), f(2.0), f(3.0), f(4.0)]);
}

#[test]
fn untraced_nodes_leave_no_trace() {
    let mut hidden = node(quad(), 1);
    hidden.object.as_mut().unwrap().data.surface_rendering_active = false;
    let mut layered = node(quad(), 1);
    layered.object.as_mut().unwrap().data.render_layers = 2;
    let mut absent = node(quad(), 1);
    absent.object = None;
    let no_vertices = node(mesh(3, vec![], vec![[0, 0, 0]]), 1);
    let no_copies = node(quad(), 0);
    let nodes = vec![hidden, layered, absent, no_vertices, no_copies, node(triangle(), 1)];
    let numbers = vec![nothing(), nothing(), nothing(), nothing(), nothing(), baked(1)];
    assert!(can_gather(&nodes, &numbers, 1));
    let scene = gather(&nodes, &numbers, &lights(), 1);
    assert_eq!(scene.mesh_ranges.len(), 1);
    assert_eq!(scene.mesh_vertices.len(), 3);
    assert_eq!(scene.instances.len(), 1);
    assert_eq!(scene.textures.len(), 1);
}

#[test]
fn materials_follow_the_object() {
    let mut n = node(triangle(), 1);
    let data = &mut n.object.as_mut().unwrap().data;
    data.normal_map = Some(TextureHandle { address: 2 });
    data.emissive_map = Some(TextureHandle { address: 4 });
    data.casts_shadows = false;
    let nodes = vec![node(triangle(), 1), n];
    let scene = gather(&nodes, &vec![baked(1), baked(1)], &lights(), 1);
    let addresses: Vec<u64> = scene.textures.iter().map(|t| t.address).collect();
    assert_eq!(addresses, vec![0x1_0000_0010, 0x1_0000_0010, 2, 4]);
    let m = scene.materials[1];
    assert_eq!((m.albedo_tex, m.normal_tex, m.mr_tex, m.emissive_tex), (1, 2, -1, 3));
    assert_eq!(scene.materials[0].albedo_tex, 0);
    assert_eq!(scene.materials[0].normal_tex, -1);
    assert_eq!(m.base_color, [f(0.5), f(0.25), f(1.0), f(1.0)]);
    assert_eq!(m.emissive, [f(0.0), f(0.0), f(0.0), f(1.0)]);
    assert_eq!((m.metallic, m.roughness, m.ior, m.transmission), (f(0.1), f(0.2), f(1.4), f(0.3)));
    assert_eq!(m.specular_tint, [f(0.9), f(0.8), f(0.7)]);
    assert_eq!((m.bsdf_type, m.light_layers, m.casts_shadows), (3, 7, 0));
    assert_eq!((m.subsurface, m.subsurface_radius, m.reflectance), (f(0.4), f(0.6), f(0.5)));
    assert_eq!(m.attenuation_color, [f(0.2), f(0.4), f(0.6)]);
    assert_eq!((m.clearcoat, m.clearcoat_roughness), (f(0.05), f(0.15)));
    assert_eq!(scene.materials[0].casts_shadows, 1);
}

#[test]
fn absorption_is_on_for_finite_positive_distances() {
    for (distance, want) in [
        (2.5, 2.5),
        (0.0, -1.0),
        (-0.0, -1.0),
        (-3.0, -1.0),
        (f32::INFINITY, -1.0),
        (f32::NAN, -1.0),
        (1e-45, 1e-45),
    ] {
        let mut n = node(triangle(), 1);
        n.object.as_mut().unwrap().data.attenuation_distance = f(distance);
        let scene = gather(&vec![n], &vec![baked(1)], &lights(), 1);
        assert_eq!(scene.materials[0].attenuation_distance, f(want));
    }
}

#[test]
fn missing_normals_and_coordinates_have_defaults() {
    let mut m = triangle();
    m.normals = Some(vec![v3(0.0, 0.0, 1.0)]);
    m.uvs = Some(vec![Vec2 { x: f(0.25), y: f(0.75) }]);
    let scene = gather(&vec![node(m, 1)], &vec![baked(1)], &lights(), 1);
    let (a, b) = (scene.mesh_vertices[0], scene.mesh_vertices[1]);
    assert_eq!(a.normal, [f(0.0), f(0.0), f(1.0)]);
    assert_eq!((a.u, a.v), (f(0.25), f(0.75)));
    assert_eq!(b.position, [f(1.0), f(0.0), f(0.0)]);
    assert_eq!(b.normal, [f(0.0), f(1.0), f(0.0)]);
    assert_eq!((b.u, b.v), (f(0.0), f(0.0)));
}

fn emissive_node(count: usize) -> SceneNode3d {
    let mut n = node(quad(), count);
    n.object.as_mut().unwrap().data.emissive = grey(2.0, 1.0, 0.5, 1.0);
    n
}

#[test]
fn emissive_faces_become_emitters_in_world_space() {
    let nodes = vec![emissive_node(2)];
    let mut b = baked(0);
    b.emissive_sum = f(3.5);
    b.instances = vec![
        placed_at(matrix(0.0, 0.0, 0.0), matrix(0.0, 0.0, 0.0), 4),
        placed_at(matrix(9.0, 0.0, 0.0), matrix(-9.0, 0.0, 0.0), 4),
    ];
    assert!(b.is_emissive());
    b.instances[1].world_positions[3] = v3(7.0, 8.0, 9.0);
    let numbers = vec![b];
    assert!(can_gather(&nodes, &numbers, 1));
    let scene = gather(&nodes, &numbers, &lights(), 1);
    assert_eq!(scene.emitters.len(), 4);
    let e = scene.emitters[3];
    assert_eq!(e.p0, [f(0.0), f(50.0), f(60.0)]);
    assert_eq!(e.p1, [f(2.0), f(50.0), f(60.0)]);
    assert_eq!(e.p2, [f(7.0), f(8.0), f(9.0)]);
    assert_eq!(e.emission, [f(2.0), f(1.0), f(0.5)]);
    assert_eq!(scene.materials[0].emissive, [f(2.0), f(1.0), f(0.5), f(1.0)]);
}

#[test]
fn faint_emission_is_none() {
    let mut b = nothing();
    for (sum, want) in [(1e-4, false), (1.0001e-4, true), (-5.0, false), (f32::NAN, false)] {
        b.emissive_sum = f(sum);
        assert_eq!(b.is_emissive(), want, "{sum}");
    }
}

fn skinned_node(count: usize) -> SceneNode3d {
    let mut n = node(triangle(), count);
    let object = n.object.as_mut().unwrap();
    object.data.has_skin = true;
    object.data.skin = Some(Skin { palette: vec![matrix(1.0, 2.0, 3.0)] });
    object.mesh.has_skin_vertices = true;
    object.mesh.skin_joints = Some(vec![[0, 0, 0, 0]; 3]);
    object.mesh.skin_weights = Some(vec![[f(1.0), f(0.0), f(0.0), f(0.0)]; 3]);
    n
}

fn skinned_numbers() -> BakedObject {
    let mut b = baked(1);
    b.skinned = Some(
        (0..3)
            .map(|i| SkinnedVertex {
                position: v3(10.0 + i as f32, 0.0, 0.0),
                normal: v3(0.0, 0.0, -1.0),
            })
            .collect(),
    );
    b.instances[0].object_to_world = matrix(99.0, 99.0, 99.0);
    b.instances[0].world_to_object = matrix(98.0, 98.0, 98.0);
    b
}

#[test]
fn skinned_objects_lie_in_world_space_once() {
    let nodes = vec![skinned_node(5)];
    let numbers = vec![skinned_numbers()];
    assert!(can_gather(&nodes, &numbers, 1));
    let scene = gather(&nodes, &numbers, &lights(), 1);
    assert_eq!(scene.instances.len(), 1);
    assert_eq!(scene.instances[0].object_to_world, matrix(0.0, 0.0, 0.0));
    assert_eq!(scene.instances[0].world_to_object, matrix(0.0, 0.0, 0.0));
    assert_eq!(scene.mesh_vertices[2].position, [f(12.0), f(0.0), f(0.0)]);
    assert_eq!(scene.mesh_vertices[2].normal, [f(0.0), f(0.0), f(-1.0)]);
}

#[test]
fn skinned_emitters_are_the_skinned_vertices() {
    let mut n = skinned_node(1);
    n.object.as_mut().unwrap().data.emissive = grey(1.0, 1.0, 1.0, 1.0);
    let mut b = skinned_numbers();
    b.emissive_sum = f(3.0);
    let scene = gather(&vec![n], &vec![b], &lights(), 1);
    assert_eq!(scene.emitters.len(), 1);
    assert_eq!(scene.emitters[0].p1, [f(11.0), f(0.0), f(0.0)]);
}

#[test]
fn morphed_vertices_replace_the_base() {
    let mut n = node(triangle(), 1);
    let object = n.object.as_mut().unwrap();
    object.data.morph_weights = vec![f(0.5)];
    object.mesh.morph = Some(MorphTargets {
        vertex_count: 3,
        target_count: 1,
        positions: Some(vec![v3(2.0, 0.0, 0.0); 3]),
        normals: None,
    });
    let mut b = baked(1);
    let nodes = vec![n];
    assert!(!can_gather(&nodes, &vec![baked(1)], 1));
    b.morphed = Some(MorphedVertices {
        positions: vec![v3(1.0, 0.0, 0.0), v3(2.0, 0.0, 0.0), v3(1.0, 1.0, 0.0)],
        normals: None,
    });
    let numbers = vec![b];
    assert!(can_gather(&nodes, &numbers, 1));
    let scene = gather(&nodes, &numbers, &lights(), 1);
    assert_eq!(scene.mesh_vertices[0].position, [f(1.0), f(0.0), f(0.0)]);
    assert_eq!(scene.mesh_vertices[0].normal, [f(0.0), f(1.0), f(0.0)]);
}

#[test]
fn numbers_that_do_not_fit_are_refused() {
    let nodes = vec![node(triangle(), 2)];
    assert!(!can_gather(&nodes, &vec![], 1));
    assert!(!can_gather(&nodes, &vec![baked(1)], 1));
    assert!(can_gather(&nodes, &vec![baked(2)], 1));
    let mut far = triangle();
    far.handle = MeshHandle { address: 4 };
    far.faces = Some(vec![[0, 1, u32::MAX]]);
    let nodes = vec![node(triangle(), 1), node(far, 1)];
    assert!(!can_gather(&nodes, &vec![baked(1), baked(1)], 1));
}

#[test]
fn transforms_follow_the_instances() {
    let nodes = vec![node(triangle(), 2), skinned_node(3), node(quad(), 0), node(quad(), 1)];
    let placed = vec![
        vec![matrix(0.0, 0.0, 0.0), matrix(1.0, 0.0, 0.0)],
        vec![],
        vec![],
        vec![matrix(0.0, 0.0, 0.0)],
    ];
    assert!(can_place(&nodes, &placed, 1));
    let transforms = gather_transforms(&nodes, &placed, 1);
    let numbers = vec![baked(2), skinned_numbers(), nothing(), baked(1)];
    let scene = gather(&nodes, &numbers, &lights(), 1);
    let gathered: Vec<Mat4> = scene.instances.iter().map(|i| i.object_to_world).collect();
    assert_eq!(transforms, gathered);
    assert_eq!(transforms[2], matrix(0.0, 0.0, 0.0));
}

#[test]
fn placements_of_the_wrong_number_are_refused() {
    let nodes = vec![node(triangle(), 2)];
    assert!(!can_place(&nodes, &vec![], 1));
    assert!(!can_place(&nodes, &vec![vec![matrix(0.0, 0.0, 0.0)]], 1));
    assert!(can_place(&nodes, &vec![vec![matrix(0.0, 0.0, 0.0); 2]], 1));
    assert!(can_place(&nodes, &vec![vec![]], 2));
}

#[test]
fn instance_inputs_have_defaults() {
    let mut i = copies(2);
    i.positions = Some(vec![v3(1.0, 2.0, 3.0)]);
    i.deformations = Some(vec![
        v3(2.0, 0.0, 0.0),
        v3(0.0, 3.0, 0.0),
        v3(0.0, 0.0, 4.0),
        v3(9.0, 9.0, 9.0),
        v3(9.0, 9.0, 9.0),
    ]);
    i.colors = Some(vec![[f(0.5); 4]]);
    let a = instance_inputs(&i, 0);
    assert_eq!(a.position, v3(1.0, 2.0, 3.0));
    assert_eq!(a.deform, [v3(2.0, 0.0, 0.0), v3(0.0, 3.0, 0.0), v3(0.0, 0.0, 4.0)]);
    assert_eq!(a.color, [f(0.5); 4]);
    let b = instance_inputs(&i, 1);
    assert_eq!(b.position, v3(0.0, 0.0, 0.0));
    assert_eq!(b.deform, [v3(1.0, 0.0, 0.0), v3(0.0, 1.0, 0.0), v3(0.0, 0.0, 1.0)]);
    assert_eq!(b.color, [f(1.0); 4]);
}

#[test]
fn joints_outside_the_palette_are_identities() {
    let palette = vec![matrix(1.0, 0.0, 0.0), matrix(2.0, 0.0, 0.0)];
    let m = Object3d::skin_matrices(&palette, [1, 0, 2, u32::MAX]);
    assert_eq!(m[0], matrix(2.0, 0.0, 0.0));
    assert_eq!(m[1], matrix(1.0, 0.0, 0.0));
    assert_eq!(m[2], matrix(0.0, 0.0, 0.0));
    assert_eq!(m[3], matrix(0.0, 0.0, 0.0));
}

fn morphing_object(weights: Vec<f32>) -> Object3d {
    let mut n = node(triangle(), 1);
    let mut object = n.object.take().unwrap();
    object.data.morph_weights = weights.into_iter().map(f).collect();
    object.mesh.morph = Some(MorphTargets {
        vertex_count: 5,
        target_count: 3,
        positions: Some(vec![v3(0.0, 0.0, 0.0); 15]),
        normals: None,
    });
    object
}

#[test]
fn morph_plan_leaves_out_targets_without_weight() {
    let object = morphing_object(vec![0.5, -0.0, 2.0, 7.0]);
    assert!(object.is_morphed());
    assert!(object.is_morph_covered());
    let plan = object.cpu_morph().unwrap();
    assert_eq!(plan.vertex_count, 3);
    let steps: Vec<(F32, usize)> = plan.steps.iter().map(|s| (s.weight, s.base)).collect();
    assert_eq!(steps, vec![(f(0.5), 0), (f(2.0), 10)]);
    assert!(!plan.blends_normals);
}

#[test]
fn zero_weights_leave_the_vertices_as_they_are() {
    for weights in [vec![0.0, -0.0], vec![]] {
        let object = morphing_object(weights);
        assert!(!object.is_morphed());
        assert!(object.is_delta_resident() && object.is_morph_covered());
        let plan = object.cpu_morph().unwrap();
        assert!(plan.steps.is_empty());
        assert_eq!(plan.vertex_count, 3);
    }
}

#[test]
fn deltas_that_are_not_resident_cannot_be_blended() {
    let mut object = morphing_object(vec![1.0]);
    object.mesh.morph.as_mut().unwrap().positions = None;
    assert!(object.cpu_morph().is_none());
    assert!(morphing_object(vec![f32::NAN]).is_morphed());
}

#[test]
fn short_deltas_are_detected() {
    let mut object = morphing_object(vec![0.0, 1.0]);
    object.mesh.morph.as_mut().unwrap().positions = Some(vec![v3(0.0, 0.0, 0.0); 8]);
    assert!(object.is_morph_covered());
    object.mesh.morph.as_mut().unwrap().positions = Some(vec![v3(0.0, 0.0, 0.0); 7]);
    assert!(!object.is_morph_covered());
}

#[test]
fn lights_by_kind() {
    let base = CollectedLight {
        light_type: LightType::Point { attenuation_radius: f(10.0) },
        world_position: v3(1.0, 2.0, 3.0),
        world_direction: v3(0.0, -1.0, 0.0),
        color: v3(1.0, 0.5, 0.25),
        intensity: f(4.0),
        radius: f(0.1),
        layers: 9,
        casts_shadows: true,
    };
    let p = collected_to_rt(&base);
    assert_eq!((p.light_type, p.attenuation_radius), (RT_LIGHT_POINT, f(10.0)));
    assert_eq!((p.inner_cone_cos, p.outer_cone_cos), (f(1.0), f(0.0)));
    assert_eq!(p.position, [f(1.0), f(2.0), f(3.0)]);
    assert_eq!(p.direction, [f(0.0), f(-1.0), f(0.0)]);
    assert_eq!(p.color, [f(1.0), f(0.5), f(0.25)]);
    assert_eq!((p.intensity, p.radius, p.layers, p.casts_shadows), (f(4.0), f(0.1), 9, 1));
    let d = collected_to_rt(&CollectedLight {
        light_type: LightType::Directional,
        casts_shadows: false,
        ..base
    });
    assert_eq!((d.light_type, d.attenuation_radius), (RT_LIGHT_DIRECTIONAL, f(0.0)));
    assert_eq!((d.inner_cone_cos, d.outer_cone_cos, d.casts_shadows), (f(1.0), f(0.0), 0));
    let s = collected_to_rt(&CollectedLight {
        light_type: LightType::Spot {
            inner_cone_cos: f(0.9),
            outer_cone_cos: f(0.7),
            attenuation_radius: f(6.0),
        },
        ..base
    });
    assert_eq!((s.light_type, s.attenuation_radius), (RT_LIGHT_SPOT, f(6.0)));
    assert_eq!((s.inner_cone_cos, s.outer_cone_cos), (f(0.9), f(0.7)));
}

#[test]
fn gathered_lights_keep_their_order() {
    let mut l = lights();
    for x in [1.0, 2.0] {
        l.lights.push(CollectedLight {
            light_type: LightType::Directional,
            world_position: v3(x, 0.0, 0.0),
            world_direction: v3(0.0, -1.0, 0.0),
            color: v3(1.0, 1.0, 1.0),
            intensity: f(1.0),
            radius: f(0.0),
            layers: 1,
            casts_shadows: true,
        });
    }
    let scene = gather(&vec![], &vec![], &l, 1);
    assert_eq!(scene.lights.len(), 2);
    assert_eq!(scene.lights[1].position[0], f(2.0));
}

#[test]
fn moving_changes_the_placements_alone() {
    let mut far = node(triangle(), 1);
    far.pose.translation = v3(5.0, 0.0, 0.0);
    let nodes = vec![node(triangle(), 1), node(quad(), 2)];
    let here = gather(&nodes, &vec![baked(1), baked(2)], &lights(), 1);
    let mut numbers = baked(1);
    numbers.instances[0].object_to_world = matrix(5.0, 0.0, 0.0);
    numbers.instances[0].world_to_object = matrix(-5.0, 0.0, 0.0);
    let mut there =
        gather(&vec![far, node(quad(), 2)], &vec![numbers, baked(2)], &lights(), 1);
    assert_eq!(there.geom_hash, here.geom_hash);
    assert_ne!(there.xform_hash, here.xform_hash);
    assert_eq!(there.instances[0].object_to_world, matrix(5.0, 0.0, 0.0));
    there.instances[0].object_to_world = here.instances[0].object_to_world;
    there.instances[0].world_to_object = here.instances[0].world_to_object;
    there.xform_hash = here.xform_hash;
    assert_eq!(format!("{there:?}"), format!("{here:?}"));
}

#[test]
fn triangles_stay_within_their_meshes() {
    let mut other = quad();
    other.handle = MeshHandle { address: 7 };
    let nodes = vec![node(quad(), 1), node(triangle(), 2), node(other, 1)];
    let scene = gather(&nodes, &vec![baked(1), baked(2), baked(1)], &lights(), 1);
    let mut vertices = 0;
    let mut triangles = 0;
    for range in &scene.mesh_ranges {
        assert_eq!((range.vert_start, range.tri_start), (vertices, triangles));
        for t in &scene.mesh_triangles[triangles as usize..(triangles + range.tri_count) as usize] {
            for v in [t.v0, t.v1, t.v2] {
                assert!(v >= vertices && v < vertices + range.vert_count);
            }
        }
        vertices += range.vert_count;
        triangles += range.tri_count;
    }
    assert_eq!((vertices, triangles), (11, 5));
}

#[test]
fn shared_mesh_is_stored_once() {
    let nodes = vec![node(triangle(), 1), node(quad(), 1), node(triangle(), 2)];
    let numbers = vec![baked(1), baked(1), baked(2)];
    assert!(can_gather(&nodes, &numbers, 1));
    let scene = gather(&nodes, &numbers, &lights(), 1);
    assert_eq!(scene.mesh_ranges.len(), 2);
    assert_eq!(scene.mesh_vertices.len(), 7);
    assert_eq!(scene.mesh_triangles.len(), 3);
    let ids: Vec<u32> = scene.instances.iter().map(|i| i.mesh_id).collect();
    assert_eq!(ids, vec![0, 1, 0, 0]);
    let materials: Vec<u32> = scene.instances.iter().map(|i| i.material_id).collect();
    assert_eq!(materials, vec![0, 1, 2, 3]);
    assert_eq!(scene.textures.len(), 3);
}

#[test]
fn shared_mesh_still_emits_per_object() {
    let mut b = baked(0);
    b.emissive_sum = f(3.5);
    b.instances = vec![placed_at(matrix(9.0, 0.0, 0.0), matrix(-9.0, 0.0, 0.0), 4)];
    let nodes = vec![node(quad(), 1), emissive_node(1)];
    let scene = gather(&nodes, &vec![baked(1), b], &lights(), 1);
    assert_eq!(scene.mesh_ranges.len(), 1);
    assert_eq!(scene.emitters.len(), 2);
}

#[test]
fn deformed_meshes_are_not_shared() {
    let nodes = vec![skinned_node(1), node(triangle(), 1), skinned_node(1), node(triangle(), 1)];
    let numbers = vec![skinned_numbers(), baked(1), skinned_numbers(), baked(1)];
    assert!(can_gather(&nodes, &numbers, 1));
    let scene = gather(&nodes, &numbers, &lights(), 1);
    let ids: Vec<u32> = scene.instances.iter().map(|i| i.mesh_id).collect();
    assert_eq!(ids, vec![0, 1, 2, 1]);
    assert_eq!(scene.mesh_ranges.len(), 3);
}
