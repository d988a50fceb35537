//! Settings, accumulation and frames.

use raytracer::bake::{BakedInstance, BakedObject};
use raytracer::content::scene_hashes;
use raytracer::float::F32;
use raytracer::gather::{gather, gather_transforms};
use raytracer::gpu_scene::{MeshBvh, Placement, RayBackend, SceneBvh, TopBvh};
use raytracer::ray_tracer::{
    DeviceInfo, EnvSource, Environment, FramePlan, FrameView, RayTracer, RayTracerPreset,
    SceneAction, Skybox,
};
use raytracer::scene::{
    Color, Fog, GpuMesh3d, InstancesBuffer3d, LightCollection, Mat4, MeshHandle, Object3d,
    ObjectData3d, Pose3, Quat, SceneNode3d, TextureHandle, Vec3,
};

fn f(v: f32) -> F32 {
    F32::from_bits(v.to_bits())
}

fn v3(x: f32, y: f32, z: f32) -> Vec3 {
    Vec3 { x: f(x), y: f(y), z: f(z) }
}

fn grey(r: f32, g: f32, b: f32, a: f32) -> Color {
    Color { r: f(r), g: f(g), b: f(b), a: f(a) }
}

fn matrix(tx: f32, ty: f32, tz: f32) -> Mat4 {
    let (o, l) = (f(0.0), f(1.0));
    [[l, o, o, o], [o, l, o, o], [o, o, l, o], [f(tx), f(ty), f(tz), l]]
}

fn object_data() -> ObjectData3d {
    ObjectData3d {
        surface_rendering_active: true,
        render_layers: 1,
        color: grey(0.5, 0.25, 1.0, 1.0),
        emissive: grey(0.0, 0.0, 0.0, 1.0),
        metallic: f(0.1),
        roughness: f(0.2),
        ior: f(1.4),
        transmission: f(0.3),
        specular_tint: grey(0.9, 0.8, 0.7, 1.0),
        bsdf_tag: 3,
        subsurface: f(0.4),
        subsurface_radius: f(0.6),
        reflectance: f(0.5),
        light_layers: 7,
        casts_shadows: true,
        attenuation_color: grey(0.2, 0.4, 0.6, 1.0),
        attenuation_distance: f(f32::INFINITY),
        clearcoat: f(0.05),
        clearcoat_roughness: f(0.15),
        texture: TextureHandle { address: 0x1_0000_0010 },
        normal_map: None,
        metallic_roughness_map: None,
        emissive_map: None,
        has_skin: false,
        skin: None,
        morph_weights: vec![],
    }
}

fn mesh(address: u64, coords: Vec<Vec3>, faces: Vec<[u32; 3]>) -> GpuMesh3d {
    GpuMesh3d {
        handle: MeshHandle { address },
        coords: Some(coords),
        faces: Some(faces),
        normals: None,
        uvs: None,
        has_skin_vertices: false,
        skin_joints: None,
        skin_weights: None,
        morph: None,
    }
}

fn triangle() -> GpuMesh3d {
    mesh(1, vec![v3(0.0, 0.0, 0.0), v3(1.0, 0.0, 0.0), v3(0.0, 1.0, 0.0)], vec![[0, 1, 2]])
}

fn copies(count: usize) -> InstancesBuffer3d {
    InstancesBuffer3d { count, positions: None, deformations: None, colors: None }
}

fn node(mesh: GpuMesh3d, count: usize) -> SceneNode3d {
    SceneNode3d {
        pose: Pose3 {
            translation: v3(0.0, 0.0, 0.0),
            rotation: Quat { x: f(0.0), y: f(0.0), z: f(0.0), w: f(1.0) },
        },
        scale: v3(1.0, 1.0, 1.0),
        object: Some(Object3d { data: object_data(), mesh, instances: copies(count) }),
    }
}

fn lights() -> LightCollection {
    LightCollection {
        lights: vec![],
        ambient: f(0.2),
        ambient_color: grey(1.0, 1.0, 1.0, 1.0),
        fog: Fog { color: grey(0.5, 0.5, 0.5, 0.0), params: [f(0.0); 4] },
    }
}

fn placed_at(m: Mat4, inverse: Mat4, vertices: usize) -> BakedInstance {
    BakedInstance {
        object_to_world: m,
        world_to_object: inverse,
        base_color: [f(0.5), f(0.25), f(1.0), f(1.0)],
        world_positions: (0..vertices).map(|i| v3(i as f32, 50.0, 60.0)).collect(),
    }
}

fn baked(count: usize) -> BakedObject {
    BakedObject {
        morphed: None,
        skinned: None,
        emissive_sum: f(0.0),
        instances: (0..count)
            .map(|i| placed_at(matrix(i as f32, 0.0, 0.0), matrix(-(i as f32), 0.0, 0.0), 0))
            .collect(),
    }
}

fn nothing() -> BakedObject {
    baked(0)
}

fn device() -> DeviceInfo {
    DeviceInfo {
        ray_query: false,
        max_storage_buffer_binding_size: 48 * 1_000_000,
        max_buffer_size: 96 * 1_000_000,
    }
}

fn tracer() -> RayTracer<u32> {
    RayTracer::new(device())
}

#[test]
fn new_tracer_has_the_documented_defaults() {
    let t = tracer();
    assert_eq!(t.backend(), RayBackend::Software);
    assert!(t.enabled());
    assert!(!t.denoise());
    assert_eq!(t.samples_accumulated(), 0);
    assert_eq!(t.guide_resolution(), (1, 1));
    assert_eq!((t.max_bounces, t.samples_per_frame, t.denoise_iterations), (8, 1, 5));
    assert_eq!(t.interactive_scale, f(0.5));
    assert_eq!((t.lens_radius, t.focus_distance), (f(0.0), f(1.0)));
    assert_eq!((t.env_rotation, t.env_intensity), (f(0.0), f(1.0)));
    assert_eq!(t.max_pixels, 1_000_000);
    assert!(t.dirty);
    assert!(t.gpu_scene.is_none());
    assert!(t.last_camera.iter().all(|c| c.is_nan()));
    assert_eq!(t.last_env.skybox_gen, u64::MAX);
}

#[test]
fn backend_is_the_best_of_the_device() {
    assert_eq!(
        RayTracer::<u32>::new(DeviceInfo { ray_query: true, ..device() }).backend(),
        RayBackend::Hardware
    );
    let forced: RayTracer<u32> =
        RayTracer::with_backend(DeviceInfo { ray_query: true, ..device() }, RayBackend::Software);
    assert_eq!(forced.backend(), RayBackend::Software);
}

#[test]
fn pixel_limit_is_that_of_the_smaller_buffer() {
    let small = DeviceInfo { max_buffer_size: 4847, ..device() };
    assert_eq!(RayTracer::<u32>::new(small).max_pixels, 100);
    let tiny = DeviceInfo { max_buffer_size: 47, ..device() };
    assert_eq!(RayTracer::<u32>::new(tiny).max_pixels, 1);
}

#[test]
fn presets_trade_speed_for_quality() {
    for (preset, scale, samples, bounces) in [
        (RayTracerPreset::Low, 0.4, 1, 4),
        (RayTracerPreset::Medium, 0.5, 2, 8),
        (RayTracerPreset::High, 0.75, 4, 8),
        (RayTracerPreset::Ultra, 1.0, 8, 12),
    ] {
        let t: RayTracer<u32> = RayTracer::preset(device(), preset);
        assert_eq!(t.interactive_scale, f(scale));
        assert_eq!((t.samples_per_frame, t.max_bounces), (samples, bounces));
    }
}

#[test]
fn disabling_keeps_the_image() {
    let mut t: RayTracer<u32> = RayTracer::with_enabled(device(), false);
    assert!(!t.enabled());
    t.dirty = false;
    t.set_enabled(true);
    assert!(t.enabled());
    assert!(!t.dirty);
}

#[test]
fn bounces_are_at_least_one() {
    let mut t = tracer();
    t.dirty = false;
    t.set_max_bounces(8);
    assert_eq!(t.max_bounces, 8);
    assert!(t.dirty);
    t.dirty = false;
    t.set_max_bounces(0);
    assert_eq!(t.max_bounces, 1);
    assert!(t.dirty);
    t.set_max_bounces(20);
    assert_eq!(t.max_bounces, 20);
}

#[test]
fn samples_are_at_least_one() {
    let mut t = tracer();
    t.dirty = false;
    t.set_samples_per_frame(0);
    assert_eq!(t.samples_per_frame, 1);
    assert!(t.dirty);
    t.dirty = false;
    t.set_samples_per_frame(3);
    assert_eq!(t.samples_per_frame, 3);
    assert!(t.dirty);
}

#[test]
fn denoiser_settings_keep_the_image() {
    let mut t = tracer();
    t.dirty = false;
    t.set_denoise(true);
    t.set_denoise_iterations(0);
    assert!(t.denoise());
    assert_eq!(t.denoise_iterations, 1);
    t.set_denoise_iterations(9);
    assert_eq!(t.denoise_iterations, 9);
    assert!(!t.dirty);
}

#[test]
fn interactive_scale_is_clamped() {
    let mut t = tracer();
    for (scale, want) in [(0.01, 0.05), (0.3, 0.3), (7.0, 1.0), (-1.0, 0.05)] {
        t.set_interactive_scale(f(scale));
        assert_eq!(t.interactive_scale, f(want));
    }
    t.set_interactive_scale(f(f32::NAN));
    assert!(t.interactive_scale.is_nan());
}

#[test]
fn aperture_is_not_negative() {
    let mut t = tracer();
    t.dirty = false;
    t.set_aperture(f(-2.0), f(1.0));
    assert_eq!((t.lens_radius, t.focus_distance), (f(0.0), f(1.0)));
    assert!(t.dirty);
    t.dirty = false;
    t.set_aperture(f(0.25), f(0.0));
    assert_eq!((t.lens_radius, t.focus_distance), (f(0.25), f(1e-3)));
    assert!(t.dirty);
    t.set_aperture(f(f32::NAN), f(f32::NAN));
    assert_eq!((t.lens_radius, t.focus_distance), (f(0.0), f(1e-3)));
}

#[test]
fn aperture_by_f_number() {
    let mut t = tracer();
    t.dirty = false;
    t.set_f_number(f(2.0), f(8.0), f(8.0 / 4.0));
    assert!(t.dirty);
    assert_eq!((t.lens_radius, t.focus_distance), (f(2.0), f(8.0)));
    t.set_f_number(f(0.0), f(8.0), f(f32::INFINITY));
    assert_eq!(t.lens_radius, f(0.0));
    t.set_f_number(f(f32::NAN), f(8.0), f(f32::NAN));
    assert_eq!(t.lens_radius, f(0.0));
}

#[test]
fn environments_come_and_go() {
    let mut t = tracer();
    t.dirty = false;
    assert!(!t.set_environment_from_file(None));
    assert!(!t.environment.present && !t.dirty);
    assert!(t.set_environment_from_file(Some(Environment { present: true })));
    assert!(t.environment.present && t.dirty);
    t.dirty = false;
    t.clear_environment();
    assert!(!t.environment.present && t.dirty);
    t.dirty = false;
    t.set_environment_image(Environment { present: true });
    assert!(t.environment.present && t.dirty);
    t.dirty = false;
    t.set_environment_orientation(f(1.5), f(-3.0));
    assert_eq!((t.env_rotation, t.env_intensity), (f(1.5), f(0.0)));
    assert!(t.dirty);
}

#[test]
fn own_environment_takes_precedence_over_the_skybox() {
    let mut t = tracer();
    let sky = Skybox { rotation: f(0.5), intensity: f(2.0), generation: 4 };
    let none = t.choose_environment(None);
    assert_eq!((none.source, none.signature.present), (EnvSource::Own, false));
    assert_eq!(none.signature.skybox_gen, 0);
    let skybox = t.choose_environment(Some(sky));
    assert_eq!((skybox.source, skybox.signature.present), (EnvSource::Skybox, true));
    assert_eq!(skybox.signature.rotation, f(0.5));
    assert_eq!((skybox.signature.intensity, skybox.signature.skybox_gen), (f(2.0), 4));
    t.set_environment_image(Environment { present: true });
    t.set_environment_orientation(f(0.25), f(3.0));
    let own = t.choose_environment(Some(sky));
    assert_eq!((own.source, own.signature.present), (EnvSource::Own, true));
    assert_eq!((own.signature.rotation, own.signature.intensity), (f(0.25), f(3.0)));
    assert_eq!(own.signature.skybox_gen, 0);
}

fn camera(x: f32) -> [F32; 16] {
    let mut c = [f(1.0); 16];
    c[0] = f(x);
    c
}

fn view() -> FrameView {
    FrameView {
        inv_view_proj: matrix(1.0, 2.0, 3.0),
        eye: [f(4.0), f(5.0), f(6.0)],
        background: grey(0.1, 0.2, 0.3, 0.4),
        env_cos: f(0.8),
        env_sin: f(0.6),
    }
}

fn bvh_for(instances: usize) -> SceneBvh<u32> {
    SceneBvh {
        meshes: vec![MeshBvh { nodes: vec![1], triangles: vec![] }],
        top: top_for(instances),
    }
}

fn top_for(instances: usize) -> TopBvh<u32> {
    TopBvh { nodes: vec![2], order: (0..instances as u32).collect() }
}

fn nodes_at(x: f32) -> Vec<SceneNode3d> {
    let mut n = node(triangle(), 1);
    n.pose.translation = v3(x, 0.0, 0.0);
    vec![n]
}

/// Traces one frame over a scene of one triangle and returns its plan and whether it
/// started anew.
fn frame(
    t: &mut RayTracer<u32>,
    nodes: &Vec<SceneNode3d>,
    at: [F32; 16],
    size: (u32, u32),
    sky: Option<Skybox>,
) -> (FramePlan, bool) {
    let l = lights();
    let plan = t.start_frame(nodes, &l, 1, at, sky);
    let mut left = plan.action;
    if left == SceneAction::MoveInstances {
        let x = nodes[0].pose.translation.x;
        let m = matrix(f32::from_bits(x.bits), 0.0, 0.0);
        let placements: Vec<Placement> = gather_transforms(nodes, &vec![vec![m]], 1)
            .iter()
            .map(|m| Placement { object_to_world: *m, world_to_object: matrix(0.0, 0.0, 0.0) })
            .collect();
        left = t.move_instances(&placements, &top_for(1), 0, plan.xform_hash);
    }
    if left == SceneAction::Rebuild {
        let scene = gather(nodes, &vec![baked(1)], &l, 1);
        t.build_scene(&scene, &bvh_for(1), 0);
    }
    let scale = f32::from_bits(plan.scale.bits);
    let rounded = ((size.0 as f32 * scale).round() as u32, (size.1 as f32 * scale).round() as u32);
    let step = t.trace_frame(&plan, rounded, (1, 1), &view(), &l);
    t.finish_frame(1);
    (plan, step.reset)
}

#[test]
fn still_frames_accumulate() {
    let mut t = tracer();
    t.set_samples_per_frame(4);
    let (plan, reset) = frame(&mut t, &nodes_at(0.0), camera(1.0), (640, 480), None);
    assert_eq!(plan.action, SceneAction::Rebuild);
    assert!(reset);
    assert_eq!(t.guide_resolution(), (320, 240));
    assert_eq!(t.samples_accumulated(), 4);
    let (plan, reset) = frame(&mut t, &nodes_at(0.0), camera(1.0), (640, 480), None);
    assert_eq!(plan.action, SceneAction::Keep);
    assert!(reset, "the resolution grew");
    assert_eq!(t.guide_resolution(), (640, 480));
    for n in 2..5 {
        let (_, reset) = frame(&mut t, &nodes_at(0.0), camera(1.0), (640, 480), None);
        assert!(!reset);
        assert_eq!(t.samples_accumulated(), 4 * n);
    }
}

fn settled() -> RayTracer<u32> {
    let mut t = tracer();
    for _ in 0..3 {
        frame(&mut t, &nodes_at(0.0), camera(1.0), (64, 48), None);
    }
    assert_eq!(t.samples_accumulated(), 2);
    t
}

#[test]
fn moving_camera_restarts() {
    let mut t = settled();
    let (plan, reset) = frame(&mut t, &nodes_at(0.0), camera(2.0), (64, 48), None);
    assert!(reset && plan.changes.camera_moved);
    assert_eq!(plan.action, SceneAction::Keep);
    assert_eq!(t.samples_accumulated(), 1);
    assert_eq!(t.guide_resolution(), (32, 24));
}

#[test]
fn negative_zero_does_not_move_the_camera() {
    let mut t = tracer();
    for _ in 0..3 {
        frame(&mut t, &nodes_at(0.0), camera(0.0), (64, 48), None);
    }
    let (plan, reset) = frame(&mut t, &nodes_at(0.0), camera(-0.0), (64, 48), None);
    assert!(!plan.changes.camera_moved && !reset);
}

#[test]
fn nan_camera_never_rests() {
    let mut t = settled();
    for _ in 0..3 {
        let (plan, reset) = frame(&mut t, &nodes_at(0.0), camera(f32::NAN), (64, 48), None);
        assert!(plan.changes.camera_moved && reset);
    }
}

#[test]
fn moving_object_takes_the_fast_path() {
    let mut t = settled();
    let geom = t.gpu_scene.as_ref().unwrap().geom_hash;
    let nodes = nodes_at(3.0);
    let (plan, reset) = frame(&mut t, &nodes, camera(1.0), (64, 48), None);
    assert_eq!(plan.action, SceneAction::MoveInstances);
    assert!(reset && plan.changes.xform_changed && !plan.changes.geom_changed);
    let gpu = t.gpu_scene.as_ref().unwrap();
    assert_eq!((gpu.geom_hash, gpu.xform_hash), scene_hashes(&nodes, &lights(), 1));
    assert_eq!(gpu.geom_hash, geom);
    assert_eq!(gpu.instances[0].object_to_world[3][0], f(3.0));
}

#[test]
fn emissive_scene_is_rebuilt() {
    let mut t = settled();
    t.gpu_scene.as_mut().unwrap().num_emitters = 1;
    let plan = t.start_frame(&nodes_at(3.0), &lights(), 1, camera(1.0), None);
    assert_eq!(plan.action, SceneAction::Rebuild);
}

#[test]
fn changed_material_is_rebuilt() {
    let mut t = settled();
    let mut nodes = nodes_at(0.0);
    nodes[0].object.as_mut().unwrap().data.metallic = f(1.0);
    let (plan, reset) = frame(&mut t, &nodes, camera(1.0), (64, 48), None);
    assert_eq!(plan.action, SceneAction::Rebuild);
    assert!(reset && plan.changes.geom_changed);
}

#[test]
fn resizing_restarts() {
    let mut t = settled();
    let (plan, reset) = frame(&mut t, &nodes_at(0.0), camera(1.0), (64, 50), None);
    assert_eq!(plan.action, SceneAction::Keep);
    assert!(reset);
    assert_eq!(t.guide_resolution(), (64, 50));
}

#[test]
fn dirty_restarts_once() {
    let mut t = settled();
    t.mark_dirty();
    assert!(frame(&mut t, &nodes_at(0.0), camera(1.0), (64, 48), None).1);
    assert_eq!(t.samples_accumulated(), 1);
    assert!(!t.rebuild_requested);
    assert!(!frame(&mut t, &nodes_at(0.0), camera(1.0), (64, 48), None).1);
    assert_eq!(t.samples_accumulated(), 2);
}

#[test]
fn edited_vertices_are_picked_up_once_marked() {
    let mut t = settled();
    let mut nodes = nodes_at(0.0);
    let mesh = &mut nodes[0].object.as_mut().unwrap().mesh;
    mesh.coords.as_mut().unwrap()[1] = v3(42.0, 0.0, 0.0);
    let (plan, reset) = frame(&mut t, &nodes, camera(1.0), (64, 48), None);
    assert_eq!(plan.action, SceneAction::Keep);
    assert!(!reset);
    t.mark_dirty();
    let (plan, reset) = frame(&mut t, &nodes, camera(1.0), (64, 48), None);
    assert_eq!(plan.action, SceneAction::Rebuild);
    assert!(reset && plan.scale == f(1.0));
    assert_eq!(t.gpu_scene.as_ref().unwrap().vertices[1].position[0], f(42.0));
    let (plan, reset) = frame(&mut t, &nodes, camera(1.0), (64, 48), None);
    assert_eq!(plan.action, SceneAction::Keep);
    assert!(!reset);
}

#[test]
fn skybox_changes_restart() {
    let mut t = settled();
    let sky = Skybox { rotation: f(0.5), intensity: f(2.0), generation: 4 };
    assert!(frame(&mut t, &nodes_at(0.0), camera(1.0), (64, 48), Some(sky)).1);
    assert!(!frame(&mut t, &nodes_at(0.0), camera(1.0), (64, 48), Some(sky)).1);
    let turned = Skybox { rotation: f(0.6), ..sky };
    assert!(frame(&mut t, &nodes_at(0.0), camera(1.0), (64, 48), Some(turned)).1);
    let replaced = Skybox { generation: 5, ..turned };
    assert!(frame(&mut t, &nodes_at(0.0), camera(1.0), (64, 48), Some(replaced)).1);
    assert!(!frame(&mut t, &nodes_at(0.0), camera(1.0), (64, 48), Some(replaced)).1);
    assert!(frame(&mut t, &nodes_at(0.0), camera(1.0), (64, 48), None).1);
}

#[test]
fn uniforms_describe_the_frame() {
    let mut t = settled();
    t.gpu_scene.as_mut().unwrap().has_translucent = true;
    t.gpu_scene.as_mut().unwrap().has_non_shadow_caster = true;
    let mut l = lights();
    l.fog = Fog { color: grey(0.5, 0.6, 0.7, 0.8), params: [f(1.0), f(2.0), f(3.0), f(4.0)] };
    let sky = Skybox { rotation: f(0.5), intensity: f(2.0), generation: 4 };
    let choice = t.choose_environment(Some(sky));
    let u = t.frame_uniforms(&view(), choice, (64, 48), &l);
    assert_eq!(u.inv_view_proj, matrix(1.0, 2.0, 3.0));
    assert_eq!(u.cam_eye, [f(4.0), f(5.0), f(6.0)]);
    assert_eq!(u.env_rotation, [f(0.8), f(0.6), f(2.0), f(0.0)]);
    assert_eq!((u.width, u.height, u.sample_index, u.seed), (64, 48, 2, 2));
    assert_eq!((u.num_triangles, u.num_lights, u.num_emitters), (1, 0, 0));
    assert_eq!((u.max_bounces, u.samples_per_frame, u.has_env), (8, 1, 1));
    assert_eq!(u.ambient, f(0.2));
    assert_eq!((u.lens_radius, u.focus_distance), (f(0.0), f(1.0)));
    assert_eq!(u.background, [f(0.1), f(0.2), f(0.3), f(1.0)]);
    assert_eq!(u.ambient_color, [f(1.0); 4]);
    assert_eq!(u.fog_color, [f(0.5), f(0.6), f(0.7), f(0.8)]);
    assert_eq!(u.fog_params, [f(1.0), f(2.0), f(3.0), f(4.0)]);
    assert_eq!(u.flags, [1, 0, 0, 0]);
    let none = t.choose_environment(None);
    assert_eq!(t.frame_uniforms(&view(), none, (64, 48), &l).has_env, 0);
}

#[test]
fn large_frames_keep_the_pixel_limit() {
    let small = DeviceInfo { max_buffer_size: 48 * 100, ..device() };
    let t: RayTracer<u32> = RayTracer::new(small);
    assert_eq!(t.render_resolution((20, 20), (10, 10)), (10, 10));
    assert_eq!(t.render_resolution((0, 0), (10, 10)), (1, 1));
    assert_eq!(t.render_resolution((5, 20), (1, 1)), (5, 20));
    assert_eq!(t.render_resolution((101, 1), (102, 1)), (100, 1));
}

#[test]
fn guides_lie_behind_the_radiance() {
    let t = settled();
    let (w, h) = t.guide_resolution();
    let pixels = w as u128 * h as u128;
    let albedo = t.guide_albedo_buffer();
    let normal = t.guide_normal_buffer();
    assert_eq!((albedo.first, albedo.count), (pixels, pixels));
    assert_eq!((normal.first, normal.count), (2 * pixels, pixels));
}

#[test]
fn denoiser_runs_while_enabled() {
    let mut t = settled();
    assert_eq!(t.denoise_iterations(3), 0);
    t.set_denoise(true);
    assert_eq!(t.denoise_iterations(3), 5);
    t.sample_index = 99;
    assert_eq!(t.denoise_iterations(3), 3);
    assert_eq!(t.denoise_iterations(0), 1);
    t.sample_index = 511;
    assert_eq!(t.denoise_iterations(3), 0);
    t.sample_index = 15;
    assert_eq!(t.finish_frame(3), 5);
    assert_eq!(t.samples_accumulated(), 16);
}

#[test]
fn moving_without_a_scene_fails() {
    let mut t = tracer();
    assert_eq!(t.move_instances(&vec![], &top_for(0), 0, 1), SceneAction::Rebuild);
    assert!(t.gpu_scene.is_none());
}

#[test]
fn instances_that_cannot_be_moved_are_rebuilt() {
    let mut t = settled();
    assert_eq!(t.move_instances(&vec![], &top_for(0), 0, 1), SceneAction::Rebuild);
}
