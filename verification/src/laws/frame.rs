//! Laws of accumulation and frame control.

use crate::bake::BakedObject;
use crate::content::{geometry_hash, transform_hash};
use crate::float::F32;
use crate::gpu_scene::{gpu_model, GpuScene, Placement, RayBackend, SceneBvh, TopBvh};
use crate::laws::gpu::gathers_to;
use crate::ray_tracer::{
    no_camera, pixel_limit, same_camera, DeviceInfo, EnvSignature, FrameChanges, GuideRegion,
    RayTracer, SceneAction, Skybox,
};
use crate::records::RtScene;
use crate::resolution::{
    capped_size, denoise_strength, lemma_capped_size, DENOISE_CONVERGED_SAMPLES,
    DENOISE_FULL_SAMPLES,
};
use crate::scene::{LightCollection, SceneNode3d};
use vstd::prelude::*;

verus! {

impl<N> RayTracer<N> {
    /// The tracer after a frame: `scene` is its GPU scene once the changes were applied,
    /// and a request to build it anew is done.
    pub open spec fn after_frame(
        self,
        camera: [F32; 16],
        scene: GpuScene<N>,
        changes: FrameChanges,
        signature: EnvSignature,
        resolution: (u32, u32),
    ) -> RayTracer<N> {
        (RayTracer {
            last_camera: camera,
            gpu_scene: Some(scene),
            rebuild_requested: false,
            ..self
        }).accumulating(changes, signature, resolution).counted()
    }
}

/// The camera holds no NaN.
pub open spec fn real_camera(camera: [F32; 16]) -> bool {
    forall|i: int| 0 <= i < 16 ==> !(#[trigger] camera@[i]).nan()
}

/// While nothing changes, samples accumulate: after a frame, another one with the same
/// camera, scene, skybox and resolution finds no change, keeps the image and adds its
/// samples to it.
pub proof fn law_still_frames_accumulate<N>(
    tracer: RayTracer<N>,
    camera: [F32; 16],
    scene: GpuScene<N>,
    changes: FrameChanges,
    skybox: Option<Skybox>,
    resolution: (u32, u32),
)
    requires
        real_camera(camera),
        !tracer.environment_choice(skybox).signature.rotation.nan(),
        !tracer.environment_choice(skybox).signature.intensity.nan(),
        tracer.sample_index + 2 * tracer.samples_per_frame <= u32::MAX,
    ensures
        ({
            let signature = tracer.environment_choice(skybox).signature;
            let once = tracer.after_frame(camera, scene, changes, signature, resolution);
            let still = once.changes(camera, scene.geom_hash, scene.xform_hash);
            let twice = once.after_frame(camera, scene, still, signature, resolution);
            &&& !still.motion()
            &&& once.action(still) is Keep
            &&& once.environment_choice(skybox).signature == signature
            &&& !once.restarts(still, signature, resolution)
            &&& twice.sample_index == once.sample_index + tracer.samples_per_frame
        }),
{
    let signature = tracer.environment_choice(skybox).signature;
    let once = tracer.after_frame(camera, scene, changes, signature, resolution);
    assert forall|i: int| 0 <= i < 16 implies (#[trigger] camera@[i]).same_number(camera@[i]) by {}
    assert(same_camera(camera, once.last_camera));
}

/// A change of the camera, the scene, the environment, the resolution or a setting
/// restarts accumulation: after the frame the image holds the samples of that frame
/// alone. Nothing else does.
pub proof fn law_any_change_restarts<N>(
    tracer: RayTracer<N>,
    camera: [F32; 16],
    scene: GpuScene<N>,
    changes: FrameChanges,
    signature: EnvSignature,
    resolution: (u32, u32),
)
    requires
        tracer.sample_index + tracer.samples_per_frame <= u32::MAX,
    ensures
        ({
            let changed = changes.camera_moved || changes.geom_changed || changes.xform_changed
                || !signature.same(tracer.last_env) || resolution.0 != tracer.accum_width
                || resolution.1 != tracer.accum_height || tracer.dirty;
            let after = tracer.after_frame(camera, scene, changes, signature, resolution);
            after.sample_index == if changed {
                tracer.samples_per_frame as int
            } else {
                tracer.sample_index + tracer.samples_per_frame
            }
        }),
{
}

/// A scene whose content hashes changed, or that was never built, is brought up to date
/// and restarts accumulation.
pub proof fn law_changed_scene_restarts<N>(
    tracer: RayTracer<N>,
    camera: [F32; 16],
    geom_hash: u64,
    xform_hash: u64,
    signature: EnvSignature,
    resolution: (u32, u32),
)
    requires
        tracer.gpu_scene matches Some(gpu) ==> gpu.geom_hash != geom_hash || gpu.xform_hash
            != xform_hash,
    ensures
        ({
            let changes = tracer.changes(camera, geom_hash, xform_hash);
            &&& !(tracer.action(changes) is Keep)
            &&& tracer.restarts(changes, signature, resolution)
        }),
{
}

/// A request to restart holds for one frame.
pub proof fn law_dirty_lasts_one_frame<N>(
    tracer: RayTracer<N>,
    camera: [F32; 16],
    scene: GpuScene<N>,
    changes: FrameChanges,
    signature: EnvSignature,
    resolution: (u32, u32),
)
    ensures
        !tracer.after_frame(camera, scene, changes, signature, resolution).dirty,
{
}

/// The first frame of a tracer builds the scene and starts with no samples, whatever
/// it sees.
pub proof fn law_first_frame_starts_anew<N>(
    device: DeviceInfo,
    backend: RayBackend,
    camera: [F32; 16],
    geom_hash: u64,
    xform_hash: u64,
    signature: EnvSignature,
    resolution: (u32, u32),
)
    ensures
        ({
            let tracer = RayTracer::<N>::fresh(device, backend);
            let changes = tracer.changes(camera, geom_hash, xform_hash);
            &&& changes.camera_moved
            &&& tracer.action(changes) is Rebuild
            &&& tracer.restarts(changes, signature, resolution)
            &&& tracer.accumulating(changes, signature, resolution).sample_index == 0
        }),
{
    assert(no_camera()@[0].nan());
    assert(!camera@[0].same_number(no_camera()@[0]));
}

/// A camera that holds a NaN always counts as moved.
pub proof fn law_nan_camera_never_rests<N>(
    tracer: RayTracer<N>,
    camera: [F32; 16],
    geom_hash: u64,
    xform_hash: u64,
    i: int,
)
    requires
        0 <= i < 16,
        camera@[i].nan(),
    ensures
        tracer.changes(camera, geom_hash, xform_hash).camera_moved,
{
    assert(!camera@[i].same_number(tracer.last_camera@[i]));
}

/// The tracer's own environment takes precedence over the skybox of the window, the
/// skybox over the flat background.
pub proof fn law_own_environment_takes_precedence<N>(tracer: RayTracer<N>, skybox: Option<Skybox>)
    ensures
        ({
            let choice = tracer.environment_choice(skybox);
            &&& choice.signature.present <==> tracer.environment.present || skybox is Some
            &&& choice.source is Skybox <==> !tracer.environment.present && skybox is Some
            &&& tracer.environment.present ==> choice == tracer.environment_choice(None)
            &&& choice.source is Own ==> choice.signature.rotation == tracer.env_rotation
                && choice.signature.intensity == tracer.env_intensity
            &&& choice.source is Skybox ==> choice.signature.rotation == skybox->0.rotation
                && choice.signature.intensity == skybox->0.intensity
        }),
{
}

/// Marking a tracer dirty, as after an edit of vertices in place, builds the GPU scene
/// anew and restarts accumulation with the next frame, even where nothing else changed,
/// and with that frame alone.
pub proof fn law_marking_picks_up_edits<N>(
    tracer: RayTracer<N>,
    camera: [F32; 16],
    geom_hash: u64,
    xform_hash: u64,
    scene: GpuScene<N>,
    signature: EnvSignature,
    resolution: (u32, u32),
)
    ensures
        ({
            let marked = RayTracer { dirty: true, rebuild_requested: true, ..tracer };
            let changes = marked.changes(camera, geom_hash, xform_hash);
            let after = marked.after_frame(camera, scene, changes, signature, resolution);
            &&& changes == tracer.changes(camera, geom_hash, xform_hash)
            &&& marked.action(changes) is Rebuild
            &&& marked.restarts(changes, signature, resolution)
            &&& !after.rebuild_requested
            &&& !after.dirty
        }),
{
}

/// Another image of the skybox restarts accumulation while the tracer has no
/// environment of its own.
pub proof fn law_new_skybox_restarts<N>(
    tracer: RayTracer<N>,
    skybox: Skybox,
    changes: FrameChanges,
    resolution: (u32, u32),
)
    requires
        !tracer.environment.present,
        tracer.last_env.skybox_gen != skybox.generation,
    ensures
        tracer.restarts(
            changes,
            tracer.environment_choice(Some(skybox)).signature,
            resolution,
        ),
{
}

/// A scene with emitters is never brought up to date by moving its instances, since
/// emitters lie in world space.
pub proof fn law_emissive_scenes_are_rebuilt<N>(tracer: RayTracer<N>, changes: FrameChanges)
    requires
        changes.scene(),
        tracer.gpu_scene is Some,
        tracer.gpu_scene->0.num_emitters != 0,
    ensures
        tracer.action(changes) is Rebuild,
{
}

/// Whatever is done about the GPU scene brings it up to date: a scene that is kept, whose
/// instances were moved, or that was gathered from the nodes and built anew, has the
/// content hashes of the frame's nodes.
pub proof fn law_scene_is_brought_up_to_date<N>(
    tracer: RayTracer<N>,
    camera: [F32; 16],
    nodes: Seq<SceneNode3d>,
    lights: LightCollection,
    render_layers: u32,
    placements: Seq<Placement>,
    top: TopBvh<N>,
    baked: Seq<BakedObject>,
    scene: RtScene,
    bvh: SceneBvh<N>,
    empty_node: N,
)
    requires
        gathers_to(nodes, baked, lights, render_layers, scene),
    ensures
        ({
            let geom_hash = geometry_hash(nodes, lights, render_layers);
            let xform_hash = transform_hash(nodes, render_layers);
            let changes = tracer.changes(camera, geom_hash, xform_hash);
            let gpu = tracer.gpu_scene->0;
            let built = gpu_model(scene, tracer.backend, bvh, empty_node);
            match tracer.action(changes) {
                SceneAction::Keep => {
                    &&& tracer.gpu_scene is Some
                    &&& gpu.geom_hash == geom_hash
                    &&& gpu.xform_hash == xform_hash
                },
                SceneAction::MoveInstances => {
                    let updated = gpu@.updated(placements, top, empty_node, xform_hash);
                    &&& tracer.gpu_scene is Some
                    &&& gpu@.updatable(placements.len(), top.nodes@.len()) ==> updated.geom_hash
                        == geom_hash && updated.xform_hash == xform_hash
                    &&& !gpu@.updatable(placements.len(), top.nodes@.len()) ==> built.geom_hash
                        == geom_hash && built.xform_hash == xform_hash
                },
                SceneAction::Rebuild => {
                    &&& built.geom_hash == geom_hash
                    &&& built.xform_hash == xform_hash
                },
            }
        }),
{
}

/// A scene that was gathered from the nodes and built anew is kept by the next frame over
/// the same nodes.
pub proof fn law_rebuilt_scene_is_kept<N>(
    tracer: RayTracer<N>,
    camera: [F32; 16],
    nodes: Seq<SceneNode3d>,
    lights: LightCollection,
    render_layers: u32,
    baked: Seq<BakedObject>,
    scene: RtScene,
    backend: RayBackend,
    bvh: SceneBvh<N>,
    empty_node: N,
)
    requires
        gathers_to(nodes, baked, lights, render_layers, scene),
        tracer.gpu_scene matches Some(gpu) && gpu@ == gpu_model(scene, backend, bvh, empty_node),
        !tracer.rebuild_requested,
    ensures
        ({
            let changes = tracer.changes(
                camera,
                geometry_hash(nodes, lights, render_layers),
                transform_hash(nodes, render_layers),
            );
            &&& !changes.scene()
            &&& tracer.action(changes) is Keep
        }),
{
    let gpu = tracer.gpu_scene->0;
    assert(gpu.geom_hash == gpu@.geom_hash && gpu.xform_hash == gpu@.xform_hash);
}

/// The GPU scene of the tracer once the action of a frame was taken: kept, moved, or built
/// anew, where building it is also what is left to do when it could not be moved. Moving
/// and building change nothing else of the tracer, but that building settles a request for
/// it.
pub open spec fn acted<N>(before: RayTracer<N>, after: RayTracer<N>, action: SceneAction) -> bool {
    let moved = RayTracer { gpu_scene: after.gpu_scene, ..before };
    let built = RayTracer { gpu_scene: after.gpu_scene, rebuild_requested: false, ..before };
    &&& after.gpu_scene is Some
    &&& match action {
        SceneAction::Keep => after == before,
        SceneAction::MoveInstances => after == moved || after == built,
        SceneAction::Rebuild => after == built,
    }
}

/// The steps of a frame, one after the other, are the frame: starting it, acting on the GPU
/// scene as planned, tracing and finishing leave the tracer as [`RayTracer::after_frame`]
/// says.
pub proof fn law_steps_make_a_frame<N>(
    tracer: RayTracer<N>,
    nodes: Seq<SceneNode3d>,
    lights: LightCollection,
    render_layers: u32,
    camera: [F32; 16],
    skybox: Option<Skybox>,
    acted_on: RayTracer<N>,
    rounded: (u32, u32),
    scaled: (u32, u32),
)
    requires
        acted(
            RayTracer { last_camera: camera, ..tracer },
            acted_on,
            tracer.plan(nodes, lights, render_layers, camera, skybox).action,
        ),
    ensures
        ({
            let plan = tracer.plan(nodes, lights, render_layers, camera, skybox);
            let signature = plan.environment.signature;
            let resolution = acted_on.resolution(rounded, scaled);
            let traced = acted_on.accumulating(plan.changes, signature, resolution);
            let finished = traced.counted();
            &&& resolution == tracer.resolution(rounded, scaled)
            &&& finished == tracer.after_frame(
                camera,
                acted_on.gpu_scene->0,
                plan.changes,
                signature,
                resolution,
            )
        }),
{
}

/// The three regions of the accumulation buffer follow one another: the radiance, the
/// albedo guide and the normal guide, of one element per pixel each.
pub proof fn law_guide_regions_follow_one_another<N>(
    tracer: RayTracer<N>,
    albedo: GuideRegion,
    normal: GuideRegion,
)
    requires
        albedo.first == tracer.accum_width * tracer.accum_height,
        albedo.count == tracer.accum_width * tracer.accum_height,
        normal.first == 2 * (tracer.accum_width * tracer.accum_height),
        normal.count == tracer.accum_width * tracer.accum_height,
    ensures
        albedo.first == albedo.count,
        albedo.first + albedo.count == normal.first,
        normal.count == albedo.count,
        normal.first + normal.count == 3 * (tracer.accum_width * tracer.accum_height),
{
}

/// The accumulation buffer of a traced image, three regions of sixteen bytes per pixel,
/// fits in one storage buffer of the device, if one pixel of it does.
pub proof fn law_accumulation_fits_the_device(
    device: DeviceInfo,
    width: u32,
    height: u32,
    scaled: (u32, u32),
)
    requires
        device.max_storage_buffer_binding_size >= 48,
        device.max_buffer_size >= 48,
    ensures
        ({
            let size = capped_size(width, height, pixel_limit(device), scaled);
            &&& size.0 >= 1
            &&& size.1 >= 1
            &&& 48 * (size.0 * size.1) <= device.max_storage_buffer_binding_size
            &&& 48 * (size.0 * size.1) <= device.max_buffer_size
        }),
{
    lemma_capped_size(width, height, pixel_limit(device), scaled);
}

/// A fresh, noisy image is filtered at full strength, a converged one not at all, and
/// in between the filter runs at least once.
pub proof fn law_denoising_fades(max_iterations: u32, samples: u32, tapered: u32)
    requires
        max_iterations >= 1,
    ensures
        samples <= DENOISE_FULL_SAMPLES ==> denoise_strength(max_iterations, samples, tapered)
            == max_iterations,
        samples >= DENOISE_CONVERGED_SAMPLES ==> denoise_strength(max_iterations, samples, tapered)
            == 0,
        samples < DENOISE_CONVERGED_SAMPLES ==> denoise_strength(max_iterations, samples, tapered)
            >= 1,
{
}

/// Denoising weakens with the samples and grows with the maximum, where the tapered
/// strengths do.
pub proof fn law_denoising_is_ordered(
    max_iterations: u32,
    larger_max: u32,
    samples: u32,
    more_samples: u32,
    tapered: u32,
    weaker: u32,
    stronger: u32,
)
    requires
        max_iterations <= larger_max,
        samples <= more_samples,
        weaker <= tapered <= stronger,
    ensures
        denoise_strength(max_iterations, samples, tapered) >= denoise_strength(
            max_iterations,
            more_samples,
            weaker,
        ),
        denoise_strength(max_iterations, samples, tapered) <= denoise_strength(
            larger_max,
            samples,
            stronger,
        ),
        denoise_strength(max_iterations, samples, tapered) <= max_iterations,
{
}

/// The two sizes have about the same aspect ratio: neither side is off by a whole pixel of
/// what the ratio calls for, measured along the longer side.
pub open spec fn same_aspect(a: (u32, u32), width: u32, height: u32) -> bool {
    let longer = if width >= height {
        width as int
    } else {
        height as int
    };
    -longer <= a.0 * height - a.1 * width <= longer
}

/// Rounding a scaled size down keeps its aspect ratio, whatever the scale `p / q`.
pub proof fn law_rounding_down_keeps_the_aspect_ratio(
    width: u32,
    height: u32,
    p: nat,
    q: nat,
    scaled: (u32, u32),
)
    requires
        q > 0,
        scaled.0 == (width * p) / (q as int),
        scaled.1 == (height * p) / (q as int),
    ensures
        same_aspect(scaled, width, height),
{
    let a = scaled.0 as int;
    let b = scaled.1 as int;
    let w = width as int;
    let h = height as int;
    assert(a * q <= w * p < a * q + q) by (nonlinear_arith)
        requires
            q > 0,
            a == (w * p) / (q as int),
    ;
    assert(b * q <= h * p < b * q + q) by (nonlinear_arith)
        requires
            q > 0,
            b == (h * p) / (q as int),
    ;
    assert(a * h - b * w <= w) by (nonlinear_arith)
        requires
            q > 0,
            w >= 0,
            h >= 0,
            a * q <= w * p,
            h * p < b * q + q,
    ;
    assert(b * w - a * h <= h) by (nonlinear_arith)
        requires
            q > 0,
            w >= 0,
            h >= 0,
            b * q <= h * p,
            w * p < a * q + q,
    ;
}

/// Capping keeps the aspect ratio where the scaled size does, as long as both sides have
/// more than one pixel left.
pub proof fn law_capping_keeps_the_aspect_ratio(
    width: u32,
    height: u32,
    max_pixels: u64,
    scaled: (u32, u32),
)
    requires
        scaled.0 <= width,
        scaled.1 <= height,
        scaled.0 * scaled.1 <= max_pixels,
        same_aspect(scaled, width, height),
        capped_size(width, height, max_pixels, scaled).0 > 1,
        capped_size(width, height, max_pixels, scaled).1 > 1,
    ensures
        same_aspect(capped_size(width, height, max_pixels, scaled), width, height),
{
    let size = capped_size(width, height, max_pixels, scaled);
    if size == (width, height) {
        assert(width * height == height * width) by (nonlinear_arith);
    } else {
        assert(scaled.0 * 0 == 0 && 0 * scaled.1 == 0);
        assert(size == scaled);
    }
}

} // verus!
