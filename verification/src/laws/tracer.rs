//! What a frame decides, field by field.

use crate::content::{geometry_hash, transform_hash};
use crate::float::F32;
use crate::gpu_scene::RayBackend;
use crate::ray_tracer::{
    best_backend, pixel_limit, DeviceInfo, EnvSignature, FrameChanges, FramePlan, FrameView,
    RayTracer, RayTracerPreset, Skybox,
};
use crate::resolution::{capped_size, denoise_strength, lemma_capped_size};
use crate::scene::{LightCollection, SceneNode3d};
use vstd::prelude::*;

verus! {

/// The environment of a frame differs from that of the last: in whether there is one, in how
/// it is turned, in how bright it is, or in its image.
pub open spec fn environment_changed(now: EnvSignature, last: EnvSignature) -> bool {
    ||| now.present != last.present
    ||| !now.rotation.same_number(last.rotation)
    ||| !now.intensity.same_number(last.intensity)
    ||| now.skybox_gen != last.skybox_gen
}

/// A frame restarts accumulation exactly where the camera moved, the scene changed, the
/// environment differs in any one respect, the size differs in width or height, or a restart
/// was asked for.
pub proof fn law_when_accumulation_restarts<N>(
    tracer: RayTracer<N>,
    changes: FrameChanges,
    signature: EnvSignature,
    resolution: (u32, u32),
)
    ensures
        environment_changed(signature, tracer.last_env) ==> tracer.restarts(
            changes,
            signature,
            resolution,
        ),
        tracer.restarts(changes, signature, resolution) <==> {
            ||| changes.camera_moved
            ||| changes.geom_changed
            ||| changes.xform_changed
            ||| environment_changed(signature, tracer.last_env)
            ||| resolution.0 != tracer.accum_width
            ||| resolution.1 != tracer.accum_height
            ||| tracer.dirty
        },
        tracer.accumulating(changes, signature, resolution).sample_index == if tracer.restarts(
            changes,
            signature,
            resolution,
        ) {
            0
        } else {
            tracer.sample_index
        },
{
}

/// A skybox that is turned, dimmed or replaced while the tracer has no environment of its own
/// restarts accumulation, each by itself.
pub proof fn law_changed_skybox_restarts<N>(
    tracer: RayTracer<N>,
    skybox: Skybox,
    changes: FrameChanges,
    resolution: (u32, u32),
)
    requires
        !tracer.environment.present,
        !tracer.last_env.present || !skybox.rotation.same_number(tracer.last_env.rotation)
            || !skybox.intensity.same_number(tracer.last_env.intensity) || skybox.generation
            != tracer.last_env.skybox_gen,
    ensures
        tracer.restarts(
            changes,
            tracer.environment_choice(Some(skybox)).signature,
            resolution,
        ),
{
}

/// Deciding on accumulation remembers the environment and the size of the frame, takes back
/// a request to restart, and touches nothing else but the sample count.
pub proof fn law_what_accumulation_remembers<N>(
    tracer: RayTracer<N>,
    changes: FrameChanges,
    signature: EnvSignature,
    resolution: (u32, u32),
)
    ensures
        ({
            let after = tracer.accumulating(changes, signature, resolution);
            &&& after.accum_width == resolution.0
            &&& after.accum_height == resolution.1
            &&& !after.dirty
            &&& after.last_env.present == signature.present
            &&& after.last_env.skybox_gen == signature.skybox_gen
            &&& after.last_env.rotation == signature.rotation
                || after.last_env.rotation.same_number(signature.rotation)
            &&& after.last_env.intensity == signature.intensity
                || after.last_env.intensity.same_number(signature.intensity)
            &&& after.backend == tracer.backend
            &&& after.gpu_scene == tracer.gpu_scene
            &&& after.max_bounces == tracer.max_bounces
            &&& after.samples_per_frame == tracer.samples_per_frame
            &&& after.interactive_scale == tracer.interactive_scale
            &&& after.lens_radius == tracer.lens_radius
            &&& after.focus_distance == tracer.focus_distance
            &&& after.environment == tracer.environment
            &&& after.env_rotation == tracer.env_rotation
            &&& after.env_intensity == tracer.env_intensity
            &&& after.last_camera == tracer.last_camera
            &&& after.rebuild_requested == tracer.rebuild_requested
            &&& after.max_pixels == tracer.max_pixels
            &&& after.denoise_enabled == tracer.denoise_enabled
            &&& after.denoise_iterations == tracer.denoise_iterations
            &&& after.enabled == tracer.enabled
        }),
{
}

/// The camera moved exactly where some number of it differs from that of the last frame.
pub proof fn law_when_the_camera_moved<N>(
    tracer: RayTracer<N>,
    camera: [F32; 16],
    geom_hash: u64,
    xform_hash: u64,
    i: int,
)
    requires
        0 <= i < 16,
    ensures
        !camera@[i].same_number(tracer.last_camera@[i]) ==> tracer.changes(
            camera,
            geom_hash,
            xform_hash,
        ).camera_moved,
        (forall|k: int| 0 <= k < 16 ==> (#[trigger] camera@[k]).same_number(tracer.last_camera@[k]))
            ==> !tracer.changes(camera, geom_hash, xform_hash).camera_moved,
{
}

/// The scene changed where there is none yet or a hash differs; only the geometry hash, or the
/// lack of a scene, calls for building it anew.
pub proof fn law_when_the_scene_changed<N>(
    tracer: RayTracer<N>,
    camera: [F32; 16],
    geom_hash: u64,
    xform_hash: u64,
)
    ensures
        ({
            let changes = tracer.changes(camera, geom_hash, xform_hash);
            &&& tracer.gpu_scene is None ==> changes.geom_changed && !changes.xform_changed
            &&& tracer.gpu_scene matches Some(gpu) ==> {
                &&& changes.geom_changed <==> gpu.geom_hash != geom_hash
                &&& changes.xform_changed <==> gpu.xform_hash != xform_hash
            }
        }),
{
}

/// The scene is built anew on request, where its geometry changed, and where it moved but has
/// emitters; its instances are moved where nothing but the transforms changed; otherwise it
/// is kept.
pub proof fn law_what_is_done_about_the_scene<N>(tracer: RayTracer<N>, changes: FrameChanges)
    requires
        tracer.gpu_scene is Some,
    ensures
        tracer.action(changes) is Keep <==> !tracer.rebuild_requested && !changes.geom_changed
            && !changes.xform_changed,
        tracer.action(changes) is MoveInstances <==> !tracer.rebuild_requested
            && !changes.geom_changed && changes.xform_changed
            && tracer.gpu_scene->0.num_emitters == 0,
{
}

/// A tracer without a scene builds one.
pub proof fn law_missing_scene_is_built<N>(
    tracer: RayTracer<N>,
    camera: [F32; 16],
    geom_hash: u64,
    xform_hash: u64,
)
    requires
        tracer.gpu_scene is None,
    ensures
        tracer.action(tracer.changes(camera, geom_hash, xform_hash)) is Rebuild,
{
}

/// A frame in which anything moves is traced at the interactive scale, a still one in full.
pub proof fn law_scale_of_a_frame<N>(tracer: RayTracer<N>, changes: FrameChanges)
    ensures
        changes.camera_moved || changes.geom_changed || changes.xform_changed
            ==> tracer.scale_for(changes) == tracer.interactive_scale,
        !changes.camera_moved && !changes.geom_changed && !changes.xform_changed
            ==> tracer.scale_for(changes).bits == 0x3f80_0000,
{
}

/// The plan of a frame is made of the frame's own hashes, camera, skybox and settings.
pub proof fn law_plan_of_a_frame<N>(
    tracer: RayTracer<N>,
    nodes: Seq<SceneNode3d>,
    lights: LightCollection,
    render_layers: u32,
    camera: [F32; 16],
    skybox: Option<Skybox>,
)
    ensures
        ({
            let plan = tracer.plan(nodes, lights, render_layers, camera, skybox);
            &&& plan.geom_hash == geometry_hash(nodes, lights, render_layers)
            &&& plan.xform_hash == transform_hash(nodes, render_layers)
            &&& plan.changes == tracer.changes(camera, plan.geom_hash, plan.xform_hash)
            &&& plan.environment == tracer.environment_choice(skybox)
            &&& plan.scale == tracer.scale_for(plan.changes)
            &&& plan.action == tracer.action(plan.changes)
        }),
{
}

/// The environment of a frame: the tracer's own with its own orientation, else the skybox with
/// the skybox's, else none.
pub proof fn law_environment_of_a_frame<N>(tracer: RayTracer<N>, skybox: Option<Skybox>)
    ensures
        ({
            let choice = tracer.environment_choice(skybox);
            let s = choice.signature;
            &&& (tracer.environment.present || skybox is None) ==> {
                &&& choice.source is Own
                &&& s.present == tracer.environment.present
                &&& s.rotation == tracer.env_rotation
                &&& s.intensity == tracer.env_intensity
                &&& s.skybox_gen == 0
            }
            &&& (!tracer.environment.present && skybox is Some) ==> {
                &&& choice.source is Skybox
                &&& s.present
                &&& s.rotation == skybox->0.rotation
                &&& s.intensity == skybox->0.intensity
                &&& s.skybox_gen == skybox->0.generation
            }
        }),
{
}

/// The parameters that the kernel reads are those of the view, the environment, the size, the
/// tracer, its scene and the lights, each in its place.
pub proof fn law_parameters_of_a_frame<N>(
    tracer: RayTracer<N>,
    view: FrameView,
    signature: EnvSignature,
    resolution: (u32, u32),
    lights: LightCollection,
)
    requires
        tracer.gpu_scene is Some,
    ensures
        ({
            let u = tracer.uniforms(view, signature, resolution, lights);
            let gpu = tracer.gpu_scene->0;
            &&& u.inv_view_proj == view.inv_view_proj
            &&& u.env_rotation@[0] == view.env_cos
            &&& u.env_rotation@[1] == view.env_sin
            &&& u.env_rotation@[2] == signature.intensity
            &&& u.env_rotation@[3].bits == 0
            &&& u.cam_eye == view.eye
            &&& u.width == resolution.0
            &&& u.height == resolution.1
            &&& u.sample_index == tracer.sample_index
            &&& u.seed == tracer.sample_index
            &&& u.num_triangles == gpu.num_triangles
            &&& u.num_lights == gpu.num_lights
            &&& u.num_emitters == gpu.num_emitters
            &&& u.ambient == lights.ambient
            &&& u.max_bounces == tracer.max_bounces
            &&& u.samples_per_frame == tracer.samples_per_frame
            &&& u.lens_radius == tracer.lens_radius
            &&& u.focus_distance == tracer.focus_distance
            &&& u.has_env == (if signature.present {
                1u32
            } else {
                0u32
            })
            &&& u.background@[0] == view.background.r
            &&& u.background@[1] == view.background.g
            &&& u.background@[2] == view.background.b
            &&& u.background@[3].bits == (if gpu.has_translucent {
                0x3f80_0000u32
            } else {
                0u32
            })
            &&& u.ambient_color@[0] == lights.ambient_color.r
            &&& u.ambient_color@[1] == lights.ambient_color.g
            &&& u.ambient_color@[2] == lights.ambient_color.b
            &&& u.ambient_color@[3].bits == 0x3f80_0000
            &&& u.fog_color@[0] == lights.fog.color.r
            &&& u.fog_color@[1] == lights.fog.color.g
            &&& u.fog_color@[2] == lights.fog.color.b
            &&& u.fog_color@[3] == lights.fog.color.a
            &&& u.fog_params == lights.fog.params
            &&& u.flags@[0] == (if gpu.has_non_shadow_caster {
                1u32
            } else {
                0u32
            })
            &&& u.flags@[1] == 0 && u.flags@[2] == 0 && u.flags@[3] == 0
        }),
{
}

/// A new tracer has never seen a camera or an environment, whatever they are, and keeps to the
/// device's limit.
pub proof fn law_new_tracer_has_seen_nothing<N>(
    device: DeviceInfo,
    backend: RayBackend,
    camera: [F32; 16],
    signature: EnvSignature,
    geom_hash: u64,
    xform_hash: u64,
)
    ensures
        ({
            let t = RayTracer::<N>::fresh(device, backend);
            &&& t.backend == backend
            &&& t.max_pixels == pixel_limit(device)
            &&& t.accum_width == 1 && t.accum_height == 1
            &&& !t.rebuild_requested
            &&& t.changes(camera, geom_hash, xform_hash).camera_moved
            &&& environment_changed(signature, t.last_env)
        }),
{
    let t = RayTracer::<N>::fresh(device, backend);
    assert(t.last_camera@[0].nan());
    assert(!camera@[0].same_number(t.last_camera@[0]));
}

/// A new tracer has the settings that its users are promised, and traces with hardware ray
/// queries exactly where the device has them.
pub proof fn law_settings_of_a_new_tracer<N>(device: DeviceInfo)
    ensures
        ({
            let t = RayTracer::<N>::fresh(device, best_backend(device));
            &&& t.backend is Hardware <==> device.ray_query
            &&& t.gpu_scene is None
            &&& t.sample_index == 0
            &&& t.max_bounces == 8
            &&& t.samples_per_frame == 1
            &&& t.interactive_scale.bits == 0x3f00_0000
            &&& t.lens_radius.bits == 0
            &&& t.focus_distance.bits == 0x3f80_0000
            &&& !t.environment.present
            &&& t.env_rotation.bits == 0
            &&& t.env_intensity.bits == 0x3f80_0000
            &&& t.dirty
            &&& !t.denoise_enabled
            &&& t.denoise_iterations == 5
            &&& t.enabled
        }),
{
}

/// A preset sets the interactive scale, the samples per frame and the path length, and nothing
/// else.
pub proof fn law_settings_of_a_preset<N>(tracer: RayTracer<N>, preset: RayTracerPreset)
    ensures
        ({
            let t = tracer.with_preset(preset);
            &&& t == (RayTracer {
                interactive_scale: t.interactive_scale,
                samples_per_frame: t.samples_per_frame,
                max_bounces: t.max_bounces,
                ..tracer
            })
            &&& preset is Low ==> t.interactive_scale.bits == 0x3ecc_cccd && t.samples_per_frame
                == 1 && t.max_bounces == 4
            &&& preset is Medium ==> t.interactive_scale.bits == 0x3f00_0000
                && t.samples_per_frame == 2 && t.max_bounces == 8
            &&& preset is High ==> t.interactive_scale.bits == 0x3f40_0000 && t.samples_per_frame
                == 4 && t.max_bounces == 8
            &&& preset is Ultra ==> t.interactive_scale.bits == 0x3f80_0000
                && t.samples_per_frame == 8 && t.max_bounces == 12
        }),
{
}

/// The pixel limit is the largest for which the accumulation buffer fits the device.
pub proof fn law_pixel_limit_is_the_largest(device: DeviceInfo)
    requires
        device.max_storage_buffer_binding_size >= 48,
        device.max_buffer_size >= 48,
    ensures
        48 * pixel_limit(device) <= device.max_storage_buffer_binding_size,
        48 * pixel_limit(device) <= device.max_buffer_size,
        48 * (pixel_limit(device) + 1) > device.max_storage_buffer_binding_size || 48 * (
        pixel_limit(device) + 1) > device.max_buffer_size,
{
}

/// A size within the limit is traced as it is. A larger one is traced at the scaled size, at
/// least one pixel and at most the size itself each way, where that is within the limit, and
/// otherwise at a part of it that keeps its width, as far as the limit has one, and has no
/// room for another row.
pub proof fn law_size_of_a_frame(width: u32, height: u32, max_pixels: u64, scaled: (u32, u32))
    requires
        width >= 1,
        height >= 1,
        max_pixels >= 1,
    ensures
        ({
            let size = capped_size(width, height, max_pixels, scaled);
            let w = if scaled.0 == 0 {
                1
            } else if scaled.0 <= width {
                scaled.0 as int
            } else {
                width as int
            };
            let h = if scaled.1 == 0 {
                1
            } else if scaled.1 <= height {
                scaled.1 as int
            } else {
                height as int
            };
            &&& width * height <= max_pixels ==> size == (width, height)
            &&& width * height > max_pixels && w * h <= max_pixels ==> size.0 == w && size.1 == h
            &&& width * height > max_pixels && w * h > max_pixels ==> {
                &&& size.0 == w || size.0 == max_pixels
                &&& size.0 <= w && size.1 <= h
                &&& size.0 * (size.1 + 1) > max_pixels
            }
        }),
{
    assert(width * height >= 1) by (nonlinear_arith)
        requires
            width >= 1,
            height >= 1,
    ;
    let w = if scaled.0 == 0 {
        1
    } else if scaled.0 <= width {
        scaled.0 as int
    } else {
        width as int
    };
    let h = if scaled.1 == 0 {
        1
    } else if scaled.1 <= height {
        scaled.1 as int
    } else {
        height as int
    };
    let limit = max_pixels as int;
    if width * height > max_pixels && w * h > limit {
        let cut = if w <= limit {
            w
        } else {
            limit
        };
        let room = limit / cut;
        assert(cut * (room + 1) > limit && room >= 1 && room <= limit) by (nonlinear_arith)
            requires
                1 <= cut <= limit,
                room == limit / cut,
        ;
        if h <= room {
            assert(cut * h <= limit) by (nonlinear_arith)
                requires
                    1 <= cut <= limit,
                    room == limit / cut,
                    0 <= h <= room,
            ;
            assert(w > limit);
            assert(room == 1) by (nonlinear_arith)
                requires
                    cut == limit,
                    limit >= 1,
                    room == limit / cut,
            ;
        }
    }
}

/// Between the two sample counts the denoiser runs as often as the taper says.
pub proof fn law_denoiser_follows_the_taper(max_iterations: u32, samples: u32, tapered: u32)
    requires
        1 <= tapered <= max_iterations,
    ensures
        samples <= 16 ==> denoise_strength(max_iterations, samples, tapered) == max_iterations,
        16 < samples < 512 ==> denoise_strength(max_iterations, samples, tapered) == tapered,
        samples >= 512 ==> denoise_strength(max_iterations, samples, tapered) == 0,
        denoise_strength(0, samples, tapered) == 0,
{
}

/// A frame is denoised by the samples that it leaves in the image, and not at all where the
/// denoiser is off.
pub proof fn law_denoising_of_a_frame<N>(tracer: RayTracer<N>, tapered: u32)
    requires
        tracer.sample_index + tracer.samples_per_frame <= u32::MAX,
        1 <= tapered <= tracer.denoise_iterations,
    ensures
        ({
            let samples = tracer.sample_index + tracer.samples_per_frame;
            &&& !tracer.denoise_enabled ==> tracer.denoise_count(tapered) == 0
            &&& tracer.denoise_enabled && samples <= 16 ==> tracer.denoise_count(tapered)
                == tracer.denoise_iterations
            &&& tracer.denoise_enabled && 16 < samples < 512 ==> tracer.denoise_count(tapered)
                == tapered
            &&& samples >= 512 ==> tracer.denoise_count(tapered) == 0
        }),
{
}

/// The size of a frame is that of the window, scaled and rounded, at least one pixel each way,
/// where the device has room for it.
pub proof fn law_resolution_of_a_frame<N>(
    tracer: RayTracer<N>,
    rounded: (u32, u32),
    scaled: (u32, u32),
)
    requires
        tracer.max_pixels >= 1,
    ensures
        ({
            let size = tracer.resolution(rounded, scaled);
            let w = if rounded.0 == 0 {
                1u32
            } else {
                rounded.0
            };
            let h = if rounded.1 == 0 {
                1u32
            } else {
                rounded.1
            };
            &&& w * h <= tracer.max_pixels ==> size == (w, h)
            &&& size.0 * size.1 <= tracer.max_pixels
            &&& 1 <= size.0 <= w
            &&& 1 <= size.1 <= h
        }),
{
    let w = if rounded.0 == 0 {
        1u32
    } else {
        rounded.0
    };
    let h = if rounded.1 == 0 {
        1u32
    } else {
        rounded.1
    };
    law_size_of_a_frame(w, h, tracer.max_pixels, scaled);
    lemma_capped_size(w, h, tracer.max_pixels, scaled);
}

/// A frame that starts anew is traced from sample zero, any other from the samples that the
/// image has; it is traced at the size and in the environment that were decided on.
pub proof fn law_what_a_frame_traces<N>(
    tracer: RayTracer<N>,
    plan: FramePlan,
    rounded: (u32, u32),
    scaled: (u32, u32),
    view: FrameView,
    lights: LightCollection,
)
    requires
        tracer.gpu_scene is Some,
    ensures
        ({
            let step = tracer.frame_step(plan, rounded, scaled, view, lights);
            let signature = plan.environment.signature;
            &&& step.resolution == tracer.resolution(rounded, scaled)
            &&& step.reset == tracer.restarts(plan.changes, signature, step.resolution)
            &&& step.reset ==> step.uniforms.sample_index == 0 && step.uniforms.seed == 0
            &&& !step.reset ==> step.uniforms.sample_index == tracer.sample_index
                && step.uniforms.seed == tracer.sample_index
            &&& (step.uniforms.width, step.uniforms.height) == step.resolution
            &&& step.uniforms.has_env == 1 <==> signature.present
            &&& step.uniforms.env_rotation@[2] == signature.intensity
            &&& step.uniforms.num_triangles == tracer.gpu_scene->0.num_triangles
            &&& step.uniforms.max_bounces == tracer.max_bounces
            &&& step.uniforms.samples_per_frame == tracer.samples_per_frame
        }),
{
}

/// A traced frame adds its samples to the image and changes nothing else.
pub proof fn law_frames_add_their_samples<N>(tracer: RayTracer<N>)
    requires
        tracer.sample_index + tracer.samples_per_frame <= u32::MAX,
    ensures
        tracer.counted().sample_index == tracer.sample_index + tracer.samples_per_frame,
        tracer == (RayTracer { sample_index: tracer.sample_index, ..tracer.counted() }),
{
}

} // verus!
