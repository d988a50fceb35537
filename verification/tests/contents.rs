//! Content hashes.

use raytracer::content::{hash_light, scene_hashes};
use raytracer::float::F32;
use raytracer::fnv::Fnv;
use raytracer::scene::{
    CollectedLight, Color, Fog, GpuMesh3d, InstancesBuffer3d, LightCollection, LightType, Mat4,
    MeshHandle, Object3d, ObjectData3d, Pose3, Quat, SceneNode3d, Skin, TextureHandle, Vec3,
};

fn f(v: f32) -> F32 {
    F32::from_bits(v.to_bits())
}

fn v3(x: f32, y: f32, z: f32) -> Vec3 {
    Vec3 { x: f(x), y: f(y), z: f(z) }
}

fn grey(r: f32, g: f32, b: f32, a: f32) -> Color {
    Color { r: f(r), g: f(g), b: f(b), a: f(a) }
}

fn matrix(tx: f32, ty: f32, tz: f32) -> Mat4 {
    let (o, l) = (f(0.0), f(1.0));
    [[l, o, o, o], [o, l, o, o], [o, o, l, o], [f(tx), f(ty), f(tz), l]]
}

fn object_data() -> ObjectData3d {
    ObjectData3d {
        surface_rendering_active: true,
        render_layers: 1,
        color: grey(0.5, 0.25, 1.0, 1.0),
        emissive: grey(0.0, 0.0, 0.0, 1.0),
        metallic: f(0.1),
        roughness: f(0.2),
        ior: f(1.4),
        transmission: f(0.3),
        specular_tint: grey(0.9, 0.8, 0.7, 1.0),
        bsdf_tag: 3,
        subsurface: f(0.4),
        subsurface_radius: f(0.6),
        reflectance: f(0.5),
        light_layers: 7,
        casts_shadows: true,
        attenuation_color: grey(0.2, 0.4, 0.6, 1.0),
        attenuation_distance: f(f32::INFINITY),
        clearcoat: f(0.05),
        clearcoat_roughness: f(0.15),
        texture: TextureHandle { address: 0x1_0000_0010 },
        normal_map: None,
        metallic_roughness_map: None,
        emissive_map: None,
        has_skin: false,
        skin: None,
        morph_weights: vec![],
    }
}

fn mesh(address: u64, coords: Vec<Vec3>, faces: Vec<[u32; 3]>) -> GpuMesh3d {
    GpuMesh3d {
        handle: MeshHandle { address },
        coords: Some(coords),
        faces: Some(faces),
        normals: None,
        uvs: None,
        has_skin_vertices: false,
        skin_joints: None,
        skin_weights: None,
        morph: None,
    }
}

fn triangle() -> GpuMesh3d {
    mesh(1, vec![v3(0.0, 0.0, 0.0), v3(1.0, 0.0, 0.0), v3(0.0, 1.0, 0.0)], vec![[0, 1, 2]])
}

fn copies(count: usize) -> InstancesBuffer3d {
    InstancesBuffer3d { count, positions: None, deformations: None, colors: None }
}

fn node(mesh: GpuMesh3d, count: usize) -> SceneNode3d {
    SceneNode3d {
        pose: Pose3 {
            translation: v3(0.0, 0.0, 0.0),
            rotation: Quat { x: f(0.0), y: f(0.0), z: f(0.0), w: f(1.0) },
        },
        scale: v3(1.0, 1.0, 1.0),
        object: Some(Object3d { data: object_data(), mesh, instances: copies(count) }),
    }
}

fn lights() -> LightCollection {
    LightCollection {
        lights: vec![],
        ambient: f(0.2),
        ambient_color: grey(1.0, 1.0, 1.0, 1.0),
        fog: Fog { color: grey(0.5, 0.5, 0.5, 0.0), params: [f(0.0); 4] },
    }
}

fn hashes(nodes: Vec<SceneNode3d>) -> (u64, u64) {
    scene_hashes(&nodes, &lights(), 1)
}

fn fnv(words: &[u32]) -> u64 {
    let mut h: u64 = 0xcbf29ce484222325;
    for w in words {
        for b in w.to_le_bytes() {
            h ^= b as u64;
            h = h.wrapping_mul(0x100000001b3);
        }
    }
    h
}

fn globals_of_the_lights() -> Vec<u32> {
    let mut words = vec![0.2f32.to_bits()];
    words.extend([1.0f32, 1.0, 1.0, 0.5, 0.5, 0.5].map(|v| v.to_bits()));
    words.extend([0, 0, 0, 0, 0]);
    words
}

#[test]
fn empty_scene_hashes_its_globals() {
    let (geom, xform) = hashes(vec![]);
    assert_eq!(geom, fnv(&globals_of_the_lights()));
    assert_eq!(xform, 0xcbf29ce484222325);
}

#[test]
fn object_hashes_its_material_and_its_counts() {
    let (geom, xform) = hashes(vec![node(triangle(), 2)]);
    let b = |v: f32| v.to_bits();
    let mut words = vec![
        b(0.1), b(0.2), b(0.5), b(0.25), b(1.0), b(1.0), 0, 0, 0, 3, b(1.4), b(0.3), b(0.9),
        b(0.8), b(0.7), b(0.4), b(0.6), b(0.5), 7, 1, b(0.05), b(0.15), b(0.2), b(0.4), b(0.6),
        b(f32::INFINITY), 0x10, 0, 0, 0, 3, 1, 2,
    ];
    words.extend(globals_of_the_lights());
    assert_eq!(geom, fnv(&words));
    let moved = [0, 0, 0, 0, 0, 0, b(1.0), b(1.0), b(1.0), b(1.0)];
    assert_eq!(xform, fnv(&moved));
}

#[test]
fn colors_skin_and_weights_are_geometry() {
    let base = hashes(vec![node(triangle(), 1)]);
    let mut n = node(triangle(), 1);
    n.object.as_mut().unwrap().instances.colors = Some(vec![[f(1.0); 4]]);
    let colored = hashes(vec![n]);
    let mut n = node(triangle(), 1);
    n.object.as_mut().unwrap().data.skin = Some(Skin { palette: vec![matrix(0.0, 0.0, 0.0)] });
    let skinned = hashes(vec![n]);
    let mut n = node(triangle(), 1);
    n.object.as_mut().unwrap().data.morph_weights = vec![f(0.5)];
    let morphed = hashes(vec![n]);
    for other in [colored, skinned, morphed] {
        assert_ne!(base.0, other.0);
        assert_eq!(base.1, other.1);
    }
}

#[test]
fn moving_changes_the_transform_hash_alone() {
    let base = hashes(vec![node(triangle(), 1)]);
    let mut n = node(triangle(), 1);
    n.pose.translation = v3(1.0, 0.0, 0.0);
    let translated = hashes(vec![n]);
    let mut n = node(triangle(), 1);
    n.pose.rotation.x = f(0.5);
    let rotated = hashes(vec![n]);
    let mut n = node(triangle(), 1);
    n.scale = v3(2.0, 1.0, 1.0);
    let scaled = hashes(vec![n]);
    let mut n = node(triangle(), 1);
    n.object.as_mut().unwrap().instances.positions = Some(vec![v3(0.0, 1.0, 0.0)]);
    let offset = hashes(vec![n]);
    let mut n = node(triangle(), 1);
    n.object.as_mut().unwrap().instances.deformations = Some(vec![v3(1.0, 1.0, 0.0); 3]);
    let deformed = hashes(vec![n]);
    for other in [translated, rotated, scaled, offset, deformed] {
        assert_eq!(base.0, other.0);
        assert_ne!(base.1, other.1);
    }
}

#[test]
fn negative_zero_is_no_motion() {
    let base = hashes(vec![node(triangle(), 1)]);
    let mut n = node(triangle(), 1);
    n.pose.translation = v3(-0.0, 0.0, -0.0);
    assert_eq!(base, hashes(vec![n]));
}

#[test]
fn appearance_changes_the_geometry_hash_alone() {
    let base = hashes(vec![node(triangle(), 1)]);
    let mut n = node(triangle(), 1);
    n.object.as_mut().unwrap().data.roughness = f(0.9);
    let rough = hashes(vec![n]);
    assert_ne!(base.0, rough.0);
    assert_eq!(base.1, rough.1);
    let mut n = node(triangle(), 1);
    n.object.as_mut().unwrap().data.normal_map = Some(TextureHandle { address: 64 });
    let mapped = hashes(vec![n]);
    assert_ne!(base.0, mapped.0);
}

#[test]
fn nodes_that_are_not_traced_are_not_hashed() {
    let base = hashes(vec![]);
    let mut hidden = node(triangle(), 1);
    hidden.object.as_mut().unwrap().data.surface_rendering_active = false;
    let mut layered = node(triangle(), 1);
    layered.object.as_mut().unwrap().data.render_layers = 2;
    let mut absent = node(triangle(), 1);
    absent.object = None;
    let no_faces = node(mesh(2, vec![v3(0.0, 0.0, 0.0)], vec![]), 1);
    let mut not_resident = node(triangle(), 1);
    not_resident.object.as_mut().unwrap().mesh.coords = None;
    let no_copies = node(triangle(), 0);
    assert_eq!(
        base,
        hashes(vec![hidden, layered, absent, no_faces, not_resident, no_copies])
    );
}

#[test]
fn layer_mask_is_a_change() {
    let mut n = node(triangle(), 1);
    n.object.as_mut().unwrap().data.render_layers = 2;
    let nodes = vec![n];
    assert_ne!(scene_hashes(&nodes, &lights(), 1), scene_hashes(&nodes, &lights(), 3));
}

fn lamp() -> CollectedLight {
    CollectedLight {
        light_type: LightType::Point { attenuation_radius: f(10.0) },
        world_position: v3(1.0, 2.0, 3.0),
        world_direction: v3(0.0, -1.0, 0.0),
        color: v3(1.0, 0.5, 0.25),
        intensity: f(4.0),
        radius: f(0.1),
        layers: 9,
        casts_shadows: true,
    }
}

#[test]
fn light_hashes_as_its_words() {
    let mut h = Fnv::new();
    hash_light(&mut h, &lamp());
    let b = |v: f32| v.to_bits();
    assert_eq!(
        h.finish(),
        fnv(&[
            0, b(10.0), b(1.0), 0,
            b(1.0), b(2.0), b(3.0), 0, b(-1.0), 0, b(1.0), b(0.5), b(0.25), b(4.0), b(0.1), 9, 1,
        ])
    );
}

#[test]
fn lights_and_globals_are_geometry() {
    let base = scene_hashes(&vec![], &lights(), 1);
    let mut lit = lights();
    lit.lights.push(lamp());
    assert_ne!(base.0, scene_hashes(&vec![], &lit, 1).0);
    let mut moved = lights();
    moved.lights.push(CollectedLight { world_position: v3(5.0, 2.0, 3.0), ..lamp() });
    assert_ne!(scene_hashes(&vec![], &lit, 1).0, scene_hashes(&vec![], &moved, 1).0);
    let mut foggy = lights();
    foggy.fog.params[1] = f(2.0);
    assert_ne!(base.0, scene_hashes(&vec![], &foggy, 1).0);
    assert_eq!(base.1, scene_hashes(&vec![], &foggy, 1).1);
}

#[test]
fn kind_of_a_light_is_geometry() {
    let with = |light_type: LightType| {
        let mut l = lights();
        l.lights.push(CollectedLight { light_type, ..lamp() });
        scene_hashes(&vec![], &l, 1).0
    };
    let spot = |inner: f32, outer: f32, radius: f32| LightType::Spot {
        inner_cone_cos: f(inner),
        outer_cone_cos: f(outer),
        attenuation_radius: f(radius),
    };
    let hashes = [
        with(LightType::Point { attenuation_radius: f(10.0) }),
        with(LightType::Point { attenuation_radius: f(11.0) }),
        with(LightType::Directional),
        with(spot(0.9, 0.7, 10.0)),
        with(spot(0.8, 0.7, 10.0)),
        with(spot(0.9, 0.6, 10.0)),
        with(spot(0.9, 0.7, 12.0)),
        with(spot(1.0, 0.0, 10.0)),
    ];
    for (i, a) in hashes.iter().enumerate() {
        for b in &hashes[i + 1..] {
            assert_ne!(a, b);
        }
    }
}
