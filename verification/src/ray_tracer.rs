//! Settings, accumulation and frame control of the path tracer.
//!
//! A frame is traced in steps. [`RayTracer::start_frame`] tells what changed, which
//! environment the frame samples and what to do about the GPU scene.
//! [`RayTracer::move_instances`] or [`RayTracer::build_scene`] does it.
//! [`RayTracer::trace_frame`] fixes the resolution, decides whether the accumulated
//! image is still good and gives the parameters of the kernel.
//! [`RayTracer::finish_frame`] tells how the image is filtered and counts the samples.

use crate::content::{geometry_hash, scene_hashes, transform_hash};
use crate::float::F32;
use crate::gpu_scene::{
    buildable, gpu_model, GpuScene, Placement, RayBackend, SceneBvh, TopBvh,
};
use crate::records::{number, RtScene};
use crate::resolution::{
    at_least_one, capped_resolution, capped_size, denoise_strength, effective_denoise_iterations,
    lemma_product_fits,
};
use crate::scene::{one, zero, Color, LightCollection, Mat4, SceneNode3d, ONE_BITS};
use vstd::prelude::*;

verus! {

/// The bit pattern of a NaN.
pub const NAN_BITS: u32 = 0x7fc0_0000;

/// The bit pattern of `0.5`, the resolution scale of a new tracer while anything
/// moves.
pub const DEFAULT_SCALE_BITS: u32 = 0x3f00_0000;

/// The bit pattern of `0.4`.
pub const LOW_SCALE_BITS: u32 = 0x3ecc_cccd;

/// The bit pattern of `0.75`.
pub const HIGH_SCALE_BITS: u32 = 0x3f40_0000;

/// The bit pattern of `0.05`, the smallest resolution scale.
pub const MIN_SCALE_BITS: u32 = 0x3d4c_cccd;

/// The bit pattern of `1e-3`, the smallest focus distance.
pub const MIN_FOCUS_BITS: u32 = 0x3a83_126f;

/// Bytes of the accumulation buffer per pixel: four numbers of radiance, four of the albedo
/// guide and four of the normal guide.
pub const ACCUMULATION_BYTES: u64 = 48;

/// What the tracer needs to know of a device.
#[derive(Clone, Copy, Debug, PartialEq, Eq, Structural)]
pub struct DeviceInfo {
    /// Whether the device has hardware ray queries.
    pub ray_query: bool,
    /// Largest part of a buffer that can be bound as storage, in bytes.
    pub max_storage_buffer_binding_size: u64,
    /// Largest buffer, in bytes.
    pub max_buffer_size: u64,
}

/// A choice between speed and quality.
#[derive(Clone, Copy, Debug, PartialEq, Eq, Structural)]
pub enum RayTracerPreset {
    Low,
    Medium,
    High,
    Ultra,
}

/// An environment map. The fallback of a tracer without one is not `present`.
#[derive(Clone, Copy, Debug, PartialEq, Eq, Structural)]
pub struct Environment {
    pub present: bool,
}

/// The skybox of a window: how it is turned and scaled, and a counter of its images.
#[derive(Clone, Copy, Debug, PartialEq, Eq, Structural)]
pub struct Skybox {
    pub rotation: F32,
    pub intensity: F32,
    pub generation: u64,
}

/// Which map escaped rays sample.
#[derive(Clone, Copy, Debug, PartialEq, Eq, Structural)]
pub enum EnvSource {
    /// The tracer's own environment, or its black fallback.
    Own,
    /// The skybox of the window.
    Skybox,
}

/// A fingerprint of the environment that a frame samples.
#[derive(Clone, Copy, Debug, PartialEq, Eq, Structural)]
pub struct EnvSignature {
    pub present: bool,
    pub rotation: F32,
    pub intensity: F32,
    /// Image counter of the skybox, `0` for the tracer's own environment.
    pub skybox_gen: u64,
}

/// The environment of a frame.
#[derive(Clone, Copy, Debug, PartialEq, Eq, Structural)]
pub struct EnvChoice {
    pub source: EnvSource,
    pub signature: EnvSignature,
}

/// What changed since the last frame.
#[derive(Clone, Copy, Debug, PartialEq, Eq, Structural)]
pub struct FrameChanges {
    pub camera_moved: bool,
    /// The scene must be built anew.
    pub geom_changed: bool,
    /// The instances of the scene moved.
    pub xform_changed: bool,
}

/// What to do about the GPU scene.
#[derive(Clone, Copy, Debug, PartialEq, Eq, Structural)]
pub enum SceneAction {
    /// Nothing changed.
    Keep,
    /// Move the instances, and build the scene anew if that fails.
    MoveInstances,
    /// Build the scene anew.
    Rebuild,
}

/// What was decided for a frame before the GPU scene is brought up to date.
#[derive(Clone, Copy, Debug, PartialEq, Eq, Structural)]
pub struct FramePlan {
    pub changes: FrameChanges,
    /// Geometry hash of the scene.
    pub geom_hash: u64,
    /// Transform hash of the scene.
    pub xform_hash: u64,
    pub environment: EnvChoice,
    /// The resolution scale.
    pub scale: F32,
    pub action: SceneAction,
}

/// The parameters of a frame, as the kernel reads them.
#[derive(Clone, Copy, Debug)]
pub struct FrameUniforms {
    pub inv_view_proj: Mat4,
    pub env_rotation: [F32; 4],
    pub cam_eye: [F32; 3],
    pub width: u32,
    pub height: u32,
    pub sample_index: u32,
    pub num_triangles: u32,
    pub num_lights: u32,
    pub ambient: F32,
    pub max_bounces: u32,
    pub seed: u32,
    pub samples_per_frame: u32,
    pub num_emitters: u32,
    pub lens_radius: F32,
    pub focus_distance: F32,
    pub has_env: u32,
    /// Background color; the fourth component tells whether some material is
    /// translucent.
    pub background: [F32; 4],
    pub ambient_color: [F32; 4],
    pub fog_color: [F32; 4],
    pub fog_params: [F32; 4],
    pub flags: [u32; 4],
}

/// What a frame sees of the camera and the window.
#[derive(Clone, Copy, Debug)]
pub struct FrameView {
    pub inv_view_proj: Mat4,
    pub eye: [F32; 3],
    pub background: Color,
    /// Cosine and sine of the environment's rotation.
    pub env_cos: F32,
    pub env_sin: F32,
}

/// What to trace in a frame.
#[derive(Clone, Copy, Debug)]
pub struct FrameStep {
    /// Whether the accumulated image starts anew.
    pub reset: bool,
    /// Width and height of the traced image.
    pub resolution: (u32, u32),
    pub uniforms: FrameUniforms,
}

/// A part of the accumulation buffer, in elements of four numbers.
#[derive(Clone, Copy, Debug, PartialEq, Eq, Structural)]
pub struct GuideRegion {
    pub first: u128,
    pub count: u128,
}

/// A progressive path tracer.
#[derive(Debug)]
pub struct RayTracer<N> {
    pub backend: RayBackend,
    pub gpu_scene: Option<GpuScene<N>>,
    /// Width of the accumulation buffer.
    pub accum_width: u32,
    /// Height of the accumulation buffer.
    pub accum_height: u32,
    /// Samples in the accumulated image.
    pub sample_index: u32,
    pub max_bounces: u32,
    pub samples_per_frame: u32,
    /// Resolution scale while anything moves.
    pub interactive_scale: F32,
    /// Thin-lens aperture radius, `0` for a pinhole.
    pub lens_radius: F32,
    /// Focus distance of the thin lens.
    pub focus_distance: F32,
    pub environment: Environment,
    /// Rotation of the environment about the Y axis.
    pub env_rotation: F32,
    /// Luminance scale of the environment.
    pub env_intensity: F32,
    /// The environment of the last frame.
    pub last_env: EnvSignature,
    /// The camera of the last frame.
    pub last_camera: [F32; 16],
    /// Accumulation restarts with the next frame.
    pub dirty: bool,
    /// The GPU scene is built anew with the next frame.
    pub rebuild_requested: bool,
    /// Most pixels that the accumulation buffer may hold.
    pub max_pixels: u64,
    pub denoise_enabled: bool,
    pub denoise_iterations: u32,
    /// Whether path tracing is active.
    pub enabled: bool,
}

/// A NaN.
pub open spec fn not_a_number() -> F32 {
    number(NAN_BITS)
}

/// The camera of a tracer that has traced no frame: it equals no camera.
pub open spec fn no_camera() -> [F32; 16] {
    let n = not_a_number();
    [n, n, n, n, n, n, n, n, n, n, n, n, n, n, n, n]
}

/// The backend for a device: hardware ray queries where it has them.
pub open spec fn best_backend(device: DeviceInfo) -> RayBackend {
    if device.ray_query {
        RayBackend::Hardware
    } else {
        RayBackend::Software
    }
}

/// How many pixels the accumulation buffer may hold: as many as fit in one storage buffer
/// of the device, at sixteen bytes in each of three regions, and at least one.
pub open spec fn pixel_limit(device: DeviceInfo) -> u64 {
    let bytes = if device.max_storage_buffer_binding_size <= device.max_buffer_size {
        device.max_storage_buffer_binding_size
    } else {
        device.max_buffer_size
    };
    at_least_one(bytes / ACCUMULATION_BYTES)
}

impl<N> RayTracer<N> {
    /// A new tracer for a device.
    pub open spec fn fresh(device: DeviceInfo, backend: RayBackend) -> RayTracer<N> {
        RayTracer {
            backend,
            gpu_scene: None,
            accum_width: 1,
            accum_height: 1,
            sample_index: 0,
            max_bounces: 8,
            samples_per_frame: 1,
            interactive_scale: number(DEFAULT_SCALE_BITS),
            lens_radius: zero(),
            focus_distance: one(),
            environment: Environment { present: false },
            env_rotation: zero(),
            env_intensity: one(),
            last_env: EnvSignature {
                present: false,
                rotation: not_a_number(),
                intensity: not_a_number(),
                skybox_gen: u64::MAX,
            },
            last_camera: no_camera(),
            dirty: true,
            rebuild_requested: false,
            max_pixels: pixel_limit(device),
            denoise_enabled: false,
            denoise_iterations: 5,
            enabled: true,
        }
    }

    /// A tracer with the settings of a preset.
    pub open spec fn with_preset(self, preset: RayTracerPreset) -> RayTracer<N> {
        match preset {
            RayTracerPreset::Low => RayTracer {
                interactive_scale: number(LOW_SCALE_BITS),
                samples_per_frame: 1,
                max_bounces: 4,
                ..self
            },
            RayTracerPreset::Medium => RayTracer {
                interactive_scale: number(DEFAULT_SCALE_BITS),
                samples_per_frame: 2,
                max_bounces: 8,
                ..self
            },
            RayTracerPreset::High => RayTracer {
                interactive_scale: number(HIGH_SCALE_BITS),
                samples_per_frame: 4,
                max_bounces: 8,
                ..self
            },
            RayTracerPreset::Ultra => RayTracer {
                interactive_scale: one(),
                samples_per_frame: 8,
                max_bounces: 12,
                ..self
            },
        }
    }

    /// The counts are at least one, the accumulation buffer keeps the pixel limit, and
    /// the instances of the GPU scene can be moved.
    pub open spec fn valid(self) -> bool {
        &&& self.max_bounces >= 1
        &&& self.samples_per_frame >= 1
        &&& self.denoise_iterations >= 1
        &&& 1 <= self.max_pixels <= u64::MAX / ACCUMULATION_BYTES
        &&& self.accum_width * self.accum_height <= self.max_pixels
        &&& self.gpu_scene matches Some(gpu) ==> gpu@.consistent()
    }
}

/// The two cameras are equal, number by number. A camera that holds a NaN equals no
/// camera.
pub open spec fn same_camera(a: [F32; 16], b: [F32; 16]) -> bool {
    forall|i: int| 0 <= i < 16 ==> (#[trigger] a@[i]).same_number(b@[i])
}

impl EnvSignature {
    /// The two signatures are equal. One that holds a NaN equals none.
    pub open spec fn same(self, other: EnvSignature) -> bool {
        &&& self.present == other.present
        &&& self.rotation.same_number(other.rotation)
        &&& self.intensity.same_number(other.intensity)
        &&& self.skybox_gen == other.skybox_gen
    }
}

impl FrameChanges {
    /// The scene changed.
    pub open spec fn scene(self) -> bool {
        self.geom_changed || self.xform_changed
    }

    /// Something is in motion.
    pub open spec fn motion(self) -> bool {
        self.camera_moved || self.scene()
    }
}

impl<N> RayTracer<N> {
    /// What changed, for a frame with this camera and these content hashes.
    pub open spec fn changes(
        self,
        camera: [F32; 16],
        geom_hash: u64,
        xform_hash: u64,
    ) -> FrameChanges {
        FrameChanges {
            camera_moved: !same_camera(camera, self.last_camera),
            geom_changed: match self.gpu_scene {
                Some(gpu) => gpu.geom_hash != geom_hash,
                None => true,
            },
            xform_changed: match self.gpu_scene {
                Some(gpu) => gpu.xform_hash != xform_hash,
                None => false,
            },
        }
    }

    /// The environment of a frame: the tracer's own where it has one, else the skybox
    /// of the window, else the fallback.
    pub open spec fn environment_choice(self, skybox: Option<Skybox>) -> EnvChoice {
        if !self.environment.present && skybox is Some {
            EnvChoice {
                source: EnvSource::Skybox,
                signature: EnvSignature {
                    present: true,
                    rotation: skybox->0.rotation,
                    intensity: skybox->0.intensity,
                    skybox_gen: skybox->0.generation,
                },
            }
        } else {
            EnvChoice {
                source: EnvSource::Own,
                signature: EnvSignature {
                    present: self.environment.present,
                    rotation: self.env_rotation,
                    intensity: self.env_intensity,
                    skybox_gen: 0,
                },
            }
        }
    }

    /// What to do about the GPU scene. It is built anew on request. Instances alone are
    /// moved only where the scene has no emitters, since those lie in world space.
    pub open spec fn action(self, changes: FrameChanges) -> SceneAction {
        if self.rebuild_requested {
            SceneAction::Rebuild
        } else if !changes.scene() {
            SceneAction::Keep
        } else if !changes.geom_changed && self.gpu_scene is Some
            && self.gpu_scene->0.num_emitters == 0 {
            SceneAction::MoveInstances
        } else {
            SceneAction::Rebuild
        }
    }

    /// The resolution scale of a frame: reduced while anything moves.
    pub open spec fn scale_for(self, changes: FrameChanges) -> F32 {
        if changes.motion() {
            self.interactive_scale
        } else {
            one()
        }
    }

    /// The plan of a frame.
    pub open spec fn plan(
        self,
        nodes: Seq<SceneNode3d>,
        lights: LightCollection,
        render_layers: u32,
        camera: [F32; 16],
        skybox: Option<Skybox>,
    ) -> FramePlan {
        let geom_hash = geometry_hash(nodes, lights, render_layers);
        let xform_hash = transform_hash(nodes, render_layers);
        let changes = self.changes(camera, geom_hash, xform_hash);
        FramePlan {
            changes,
            geom_hash,
            xform_hash,
            environment: self.environment_choice(skybox),
            scale: self.scale_for(changes),
            action: self.action(changes),
        }
    }

    /// The resolution of a frame: `rounded`, at least one each way, capped to the
    /// pixel limit.
    pub open spec fn resolution(self, rounded: (u32, u32), scaled: (u32, u32)) -> (u32, u32) {
        capped_size(
            at_least_one(rounded.0 as u64) as u32,
            at_least_one(rounded.1 as u64) as u32,
            self.max_pixels,
            scaled,
        )
    }

    /// The accumulated image is no longer good.
    pub open spec fn restarts(
        self,
        changes: FrameChanges,
        signature: EnvSignature,
        resolution: (u32, u32),
    ) -> bool {
        ||| changes.motion()
        ||| !signature.same(self.last_env)
        ||| resolution != (self.accum_width, self.accum_height)
        ||| self.dirty
    }

    /// The tracer once it knows whether the accumulated image is still good.
    pub open spec fn accumulating(
        self,
        changes: FrameChanges,
        signature: EnvSignature,
        resolution: (u32, u32),
    ) -> RayTracer<N> {
        RayTracer {
            last_env: if signature.same(self.last_env) {
                self.last_env
            } else {
                signature
            },
            accum_width: resolution.0,
            accum_height: resolution.1,
            dirty: false,
            sample_index: if self.restarts(changes, signature, resolution) {
                0
            } else {
                self.sample_index
            },
            ..self
        }
    }

    /// What to trace in a planned frame: with the tracer as it is once it knows whether the
    /// accumulated image is still good.
    pub open spec fn frame_step(
        self,
        plan: FramePlan,
        rounded: (u32, u32),
        scaled: (u32, u32),
        view: FrameView,
        lights: LightCollection,
    ) -> FrameStep {
        let resolution = self.resolution(rounded, scaled);
        let signature = plan.environment.signature;
        FrameStep {
            reset: self.restarts(plan.changes, signature, resolution),
            resolution,
            uniforms: self.accumulating(plan.changes, signature, resolution).uniforms(
                view,
                signature,
                resolution,
                lights,
            ),
        }
    }

    /// The tracer after the samples of a frame were counted.
    pub open spec fn counted(self) -> RayTracer<N> {
        RayTracer {
            sample_index: (self.sample_index + self.samples_per_frame) as u32,
            ..self
        }
    }

    /// How many denoiser iterations a frame gets, for the samples that the image has
    /// after it; none where the denoiser is off.
    pub open spec fn denoise_count(self, tapered: u32) -> u32 {
        if self.denoise_enabled {
            denoise_strength(
                self.denoise_iterations,
                (self.sample_index + self.samples_per_frame) as u32,
                tapered,
            )
        } else {
            0
        }
    }

    /// The parameters of a frame.
    pub open spec fn uniforms(
        self,
        view: FrameView,
        signature: EnvSignature,
        resolution: (u32, u32),
        lights: LightCollection,
    ) -> FrameUniforms {
        let gpu = self.gpu_scene->0;
        FrameUniforms {
            inv_view_proj: view.inv_view_proj,
            env_rotation: [view.env_cos, view.env_sin, signature.intensity, zero()],
            cam_eye: view.eye,
            width: resolution.0,
            height: resolution.1,
            sample_index: self.sample_index,
            num_triangles: gpu.num_triangles,
            num_lights: gpu.num_lights,
            ambient: lights.ambient,
            max_bounces: self.max_bounces,
            seed: self.sample_index,
            samples_per_frame: self.samples_per_frame,
            num_emitters: gpu.num_emitters,
            lens_radius: self.lens_radius,
            focus_distance: self.focus_distance,
            has_env: if signature.present {
                1
            } else {
                0
            },
            background: [
                view.background.r,
                view.background.g,
                view.background.b,
                if gpu.has_translucent {
                    one()
                } else {
                    zero()
                },
            ],
            ambient_color: [
                lights.ambient_color.r,
                lights.ambient_color.g,
                lights.ambient_color.b,
                one(),
            ],
            fog_color: [
                lights.fog.color.r,
                lights.fog.color.g,
                lights.fog.color.b,
                lights.fog.color.a,
            ],
            fog_params: lights.fog.params,
            flags: [
                if gpu.has_non_shadow_caster {
                    1
                } else {
                    0
                },
                0,
                0,
                0,
            ],
        }
    }
}

fn cameras_equal(a: &[F32; 16], b: &[F32; 16]) -> (r: bool)
    ensures
        r == same_camera(*a, *b),
{
    let mut i: usize = 0;
    while i < 16
        invariant
            i <= 16,
            forall|j: int| 0 <= j < i ==> (#[trigger] a@[j]).same_number(b@[j]),
        decreases 16 - i,
    {
        if !a[i].num_eq(b[i]) {
            assert(!a@[i as int].same_number(b@[i as int]));
            return false;
        }
        i = i + 1;
    }
    true
}

impl EnvSignature {
    fn is_same(self, other: EnvSignature) -> (r: bool)
        ensures
            r == self.same(other),
    {
        self.present == other.present && self.rotation.num_eq(other.rotation)
            && self.intensity.num_eq(other.intensity) && self.skybox_gen == other.skybox_gen
    }
}

impl<N> RayTracer<N> {
    /// A new tracer with the best backend of the device.
    pub fn new(device: DeviceInfo) -> (tracer: RayTracer<N>)
        ensures
            tracer == RayTracer::<N>::fresh(device, best_backend(device)),
            tracer.valid(),
    {
        Self::with_backend(device, Self::pick_backend(device))
    }

    /// A new tracer with the settings of a preset.
    pub fn preset(device: DeviceInfo, preset: RayTracerPreset) -> (tracer: RayTracer<N>)
        ensures
            tracer == RayTracer::<N>::fresh(device, best_backend(device)).with_preset(preset),
            tracer.valid(),
    {
        let mut tracer = Self::new(device);
        match preset {
            RayTracerPreset::Low => {
                tracer.interactive_scale = F32::from_bits(LOW_SCALE_BITS);
                tracer.samples_per_frame = 1;
                tracer.max_bounces = 4;
            },
            RayTracerPreset::Medium => {
                tracer.interactive_scale = F32::from_bits(DEFAULT_SCALE_BITS);
                tracer.samples_per_frame = 2;
                tracer.max_bounces = 8;
            },
            RayTracerPreset::High => {
                tracer.interactive_scale = F32::from_bits(HIGH_SCALE_BITS);
                tracer.samples_per_frame = 4;
                tracer.max_bounces = 8;
            },
            RayTracerPreset::Ultra => {
                tracer.interactive_scale = F32::from_bits(ONE_BITS);
                tracer.samples_per_frame = 8;
                tracer.max_bounces = 12;
            },
        }
        tracer
    }

    /// A new tracer that is enabled or not. A disabled one leaves drawing to the
    /// rasterizer.
    pub fn with_enabled(device: DeviceInfo, enabled: bool) -> (tracer: RayTracer<N>)
        ensures
            tracer == (RayTracer {
                enabled,
                ..RayTracer::<N>::fresh(device, best_backend(device))
            }),
            tracer.valid(),
    {
        let mut tracer = Self::new(device);
        tracer.enabled = enabled;
        tracer
    }

    /// A new tracer with a given backend.
    pub fn with_backend(device: DeviceInfo, backend: RayBackend) -> (tracer: RayTracer<N>)
        ensures
            tracer == RayTracer::<N>::fresh(device, backend),
            tracer.valid(),
    {
        let max_bytes: u64 = if device.max_storage_buffer_binding_size <= device.max_buffer_size {
            device.max_storage_buffer_binding_size
        } else {
            device.max_buffer_size
        };
        let pixels: u64 = max_bytes / ACCUMULATION_BYTES;
        let max_pixels: u64 = if pixels == 0 {
            1
        } else {
            pixels
        };
        let zero_number = F32::from_bits(0);
        let one_number = F32::from_bits(ONE_BITS);
        let nan = F32::from_bits(NAN_BITS);
        assert(1u32 * 1u32 == 1) by (nonlinear_arith);
        RayTracer {
            backend,
            gpu_scene: None,
            accum_width: 1,
            accum_height: 1,
            sample_index: 0,
            max_bounces: 8,
            samples_per_frame: 1,
            interactive_scale: F32::from_bits(DEFAULT_SCALE_BITS),
            lens_radius: zero_number,
            focus_distance: one_number,
            environment: Environment { present: false },
            env_rotation: zero_number,
            env_intensity: one_number,
            last_env: EnvSignature {
                present: false,
                rotation: nan,
                intensity: nan,
                skybox_gen: u64::MAX,
            },
            last_camera: [
                nan, nan, nan, nan, nan, nan, nan, nan, nan, nan, nan, nan, nan, nan, nan, nan,
            ],
            dirty: true,
            rebuild_requested: false,
            max_pixels,
            denoise_enabled: false,
            denoise_iterations: 5,
            enabled: true,
        }
    }

    /// The best backend of a device.
    pub fn pick_backend(device: DeviceInfo) -> (backend: RayBackend)
        ensures
            backend == best_backend(device),
    {
        if device.ray_query {
            RayBackend::Hardware
        } else {
            RayBackend::Software
        }
    }

    /// The backend of the tracer.
    pub fn backend(&self) -> (backend: RayBackend)
        ensures
            backend == self.backend,
    {
        self.backend
    }

    /// Whether path tracing is active.
    pub fn enabled(&self) -> (enabled: bool)
        ensures
            enabled == self.enabled,
    {
        self.enabled
    }

    /// Enables or disables path tracing. Keeps the accumulated image.
    pub fn set_enabled(&mut self, enabled: bool)
        ensures
            *final(self) == (RayTracer { enabled, ..*old(self) }),
    {
        self.enabled = enabled;
    }

    /// Sets the maximum path length, at least one, and restarts accumulation.
    pub fn set_max_bounces(&mut self, bounces: u32)
        ensures
            *final(self) == (RayTracer {
                max_bounces: at_least_one(bounces as u64) as u32,
                dirty: true,
                ..*old(self)
            }),
            old(self).valid() ==> final(self).valid(),
    {
        self.max_bounces = if bounces == 0 {
            1
        } else {
            bounces
        };
        self.dirty = true;
    }

    /// Enables or disables the denoiser. Keeps the accumulated image.
    pub fn set_denoise(&mut self, enabled: bool)
        ensures
            *final(self) == (RayTracer { denoise_enabled: enabled, ..*old(self) }),
    {
        self.denoise_enabled = enabled;
    }

    /// Whether the denoiser is enabled.
    pub fn denoise(&self) -> (enabled: bool)
        ensures
            enabled == self.denoise_enabled,
    {
        self.denoise_enabled
    }

    /// Sets the number of denoiser iterations, at least one. Keeps the accumulated
    /// image.
    pub fn set_denoise_iterations(&mut self, iterations: u32)
        ensures
            *final(self) == (RayTracer {
                denoise_iterations: at_least_one(iterations as u64) as u32,
                ..*old(self)
            }),
            old(self).valid() ==> final(self).valid(),
    {
        self.denoise_iterations = if iterations == 0 {
            1
        } else {
            iterations
        };
    }

    /// Sets the number of samples per frame, at least one, and restarts accumulation.
    pub fn set_samples_per_frame(&mut self, samples: u32)
        ensures
            *final(self) == (RayTracer {
                samples_per_frame: at_least_one(samples as u64) as u32,
                dirty: true,
                ..*old(self)
            }),
            old(self).valid() ==> final(self).valid(),
    {
        self.samples_per_frame = if samples == 0 {
            1
        } else {
            samples
        };
        self.dirty = true;
    }

    /// Sets the resolution scale while anything moves, moved into `[0.05, 1]`.
    pub fn set_interactive_scale(&mut self, scale: F32)
        ensures
            *final(self) == (RayTracer {
                interactive_scale: scale.clamped(number(MIN_SCALE_BITS), one()),
                ..*old(self)
            }),
    {
        self.interactive_scale = scale.clamp(
            F32::from_bits(MIN_SCALE_BITS),
            F32::from_bits(ONE_BITS),
        );
    }

    /// Sets the aperture radius, at least zero, and the focus distance, at least
    /// `1e-3`, of the thin lens, and restarts accumulation.
    pub fn set_aperture(&mut self, lens_radius: F32, focus_distance: F32)
        ensures
            *final(self) == (RayTracer {
                lens_radius: lens_radius.larger(zero()),
                focus_distance: focus_distance.larger(number(MIN_FOCUS_BITS)),
                dirty: true,
                ..*old(self)
            }),
    {
        self.lens_radius = lens_radius.max(F32::from_bits(0));
        self.focus_distance = focus_distance.max(F32::from_bits(MIN_FOCUS_BITS));
        self.dirty = true;
    }

    /// Sets the aperture by a photographic f-number, and restarts accumulation. `radius`
    /// is `focus_distance / (2 * f_number)`; an f-number that is not positive gives a
    /// pinhole.
    pub fn set_f_number(&mut self, f_number: F32, focus_distance: F32, radius: F32)
        ensures
            *final(self) == (RayTracer {
                lens_radius: if zero().less(f_number) {
                    radius.larger(zero())
                } else {
                    zero()
                },
                focus_distance: focus_distance.larger(number(MIN_FOCUS_BITS)),
                dirty: true,
                ..*old(self)
            }),
    {
        let zero_number = F32::from_bits(0);
        let chosen = if zero_number.lt(f_number) {
            radius
        } else {
            zero_number
        };
        self.set_aperture(chosen, focus_distance);
    }

    /// Sets the environment to one that was loaded from a file, and restarts
    /// accumulation. Keeps the environment, and returns `false`, where the file could
    /// not be decoded.
    pub fn set_environment_from_file(&mut self, loaded: Option<Environment>) -> (r: bool)
        ensures
            r == loaded is Some,
            *final(self) == match loaded {
                Some(environment) => RayTracer { environment, dirty: true, ..*old(self) },
                None => *old(self),
            },
    {
        match loaded {
            Some(environment) => {
                self.environment = environment;
                self.dirty = true;
                true
            },
            None => false,
        }
    }

    /// Sets the environment to one made from an image, and restarts accumulation.
    pub fn set_environment_image(&mut self, environment: Environment)
        ensures
            *final(self) == (RayTracer { environment, dirty: true, ..*old(self) }),
    {
        self.environment = environment;
        self.dirty = true;
    }

    /// Clears the tracer's own environment, and restarts accumulation.
    pub fn clear_environment(&mut self)
        ensures
            *final(self) == (RayTracer {
                environment: Environment { present: false },
                dirty: true,
                ..*old(self)
            }),
    {
        self.environment = Environment { present: false };
        self.dirty = true;
    }

    /// Sets the rotation of the environment and its luminance scale, at least zero,
    /// and restarts accumulation.
    pub fn set_environment_orientation(&mut self, rotation_radians: F32, intensity: F32)
        ensures
            *final(self) == (RayTracer {
                env_rotation: rotation_radians,
                env_intensity: intensity.larger(zero()),
                dirty: true,
                ..*old(self)
            }),
    {
        self.env_rotation = rotation_radians;
        self.env_intensity = intensity.max(F32::from_bits(0));
        self.dirty = true;
    }

    /// Number of samples in the accumulated image.
    pub fn samples_accumulated(&self) -> (n: u32)
        ensures
            n == self.sample_index,
    {
        self.sample_index
    }

    /// Restarts accumulation with the next frame and builds the GPU scene anew, so that
    /// vertices that were edited in place, which the content hashes do not cover, are
    /// picked up.
    pub fn mark_dirty(&mut self)
        ensures
            *final(self) == (RayTracer { dirty: true, rebuild_requested: true, ..*old(self) }),
    {
        self.dirty = true;
        self.rebuild_requested = true;
    }

    /// Width and height of the traced image.
    pub fn guide_resolution(&self) -> (size: (u32, u32))
        ensures
            size == (self.accum_width, self.accum_height),
    {
        (self.accum_width, self.accum_height)
    }

    /// Where the albedo guide lies in the accumulation buffer: the second of three
    /// regions of one element per pixel.
    pub fn guide_albedo_buffer(&self) -> (region: GuideRegion)
        ensures
            region.first == self.accum_width * self.accum_height,
            region.count == self.accum_width * self.accum_height,
    {
        proof {
            lemma_product_fits(self.accum_width, self.accum_height);
        }
        let pixels: u128 = self.accum_width as u128 * self.accum_height as u128;
        GuideRegion { first: pixels, count: pixels }
    }

    /// Where the normal guide lies in the accumulation buffer: the third of three
    /// regions of one element per pixel.
    pub fn guide_normal_buffer(&self) -> (region: GuideRegion)
        ensures
            region.first == 2 * (self.accum_width * self.accum_height),
            region.count == self.accum_width * self.accum_height,
    {
        proof {
            lemma_product_fits(self.accum_width, self.accum_height);
        }
        let pixels: u128 = self.accum_width as u128 * self.accum_height as u128;
        GuideRegion { first: 2 * pixels, count: pixels }
    }

    /// Tells what changed since the last frame, and remembers the camera. The hashes
    /// are the content hashes of the scene.
    pub fn begin_frame(
        &mut self,
        camera: [F32; 16],
        geom_hash: u64,
        xform_hash: u64,
    ) -> (changes: FrameChanges)
        ensures
            changes == old(self).changes(camera, geom_hash, xform_hash),
            *final(self) == (RayTracer { last_camera: camera, ..*old(self) }),
    {
        let camera_moved = !cameras_equal(&camera, &self.last_camera);
        self.last_camera = camera;
        let (geom_changed, xform_changed): (bool, bool) = match &self.gpu_scene {
            Some(gpu) => (gpu.geom_hash != geom_hash, gpu.xform_hash != xform_hash),
            None => (true, false),
        };
        FrameChanges { camera_moved, geom_changed, xform_changed }
    }

    /// The resolution scale of a frame: reduced while anything moves.
    pub fn frame_scale(&self, changes: FrameChanges) -> (scale: F32)
        ensures
            scale == self.scale_for(changes),
    {
        if changes.camera_moved || changes.geom_changed || changes.xform_changed {
            self.interactive_scale
        } else {
            F32::from_bits(ONE_BITS)
        }
    }

    /// The resolution of a frame. `rounded` is the size of the framebuffer times the
    /// frame's scale, rounded to the nearest; `scaled` is that size, at least one each
    /// way, scaled down to the pixel limit as for [`capped_resolution`].
    pub fn render_resolution(
        &self,
        rounded: (u32, u32),
        scaled: (u32, u32),
    ) -> (resolution: (u32, u32))
        ensures
            resolution == self.resolution(rounded, scaled),
            resolution.0 >= 1,
            resolution.1 >= 1,
            resolution.0 <= at_least_one(rounded.0 as u64),
            resolution.1 <= at_least_one(rounded.1 as u64),
            resolution.0 * resolution.1 <= at_least_one(self.max_pixels),
    {
        let width: u32 = if rounded.0 == 0 {
            1
        } else {
            rounded.0
        };
        let height: u32 = if rounded.1 == 0 {
            1
        } else {
            rounded.1
        };
        capped_resolution(width, height, self.max_pixels, scaled)
    }

    /// Chooses the environment of a frame.
    pub fn choose_environment(&self, skybox: Option<Skybox>) -> (choice: EnvChoice)
        ensures
            choice == self.environment_choice(skybox),
    {
        if !self.environment.present {
            match skybox {
                Some(sky) => {
                    return EnvChoice {
                        source: EnvSource::Skybox,
                        signature: EnvSignature {
                            present: true,
                            rotation: sky.rotation,
                            intensity: sky.intensity,
                            skybox_gen: sky.generation,
                        },
                    };
                },
                None => {},
            }
        }
        EnvChoice {
            source: EnvSource::Own,
            signature: EnvSignature {
                present: self.environment.present,
                rotation: self.env_rotation,
                intensity: self.env_intensity,
                skybox_gen: 0,
            },
        }
    }

    /// What to do about the GPU scene.
    pub fn scene_action(&self, changes: FrameChanges) -> (action: SceneAction)
        ensures
            action == self.action(changes),
    {
        if self.rebuild_requested {
            return SceneAction::Rebuild;
        }
        if !changes.geom_changed && !changes.xform_changed {
            return SceneAction::Keep;
        }
        match &self.gpu_scene {
            Some(gpu) => {
                if !changes.geom_changed && gpu.num_emitters == 0 {
                    SceneAction::MoveInstances
                } else {
                    SceneAction::Rebuild
                }
            },
            None => SceneAction::Rebuild,
        }
    }

    /// Tells whether the accumulated image is still good for a frame; where it is not,
    /// accumulation starts again with no samples.
    pub fn update_accumulation(
        &mut self,
        changes: FrameChanges,
        environment: EnvChoice,
        resolution: (u32, u32),
    ) -> (reset: bool)
        ensures
            reset == old(self).restarts(changes, environment.signature, resolution),
            *final(self) == old(self).accumulating(changes, environment.signature, resolution),
            old(self).valid() && resolution.0 * resolution.1 <= old(self).max_pixels
                ==> final(self).valid(),
    {
        let mut reset = changes.camera_moved;
        if !environment.signature.is_same(self.last_env) {
            self.last_env = environment.signature;
            reset = true;
        }
        if changes.geom_changed || changes.xform_changed {
            reset = true;
        }
        if resolution.0 != self.accum_width || resolution.1 != self.accum_height {
            self.accum_width = resolution.0;
            self.accum_height = resolution.1;
            reset = true;
        }
        if self.dirty {
            reset = true;
            self.dirty = false;
        }
        if reset {
            self.sample_index = 0;
        }
        reset
    }

    /// The parameters of a frame.
    pub fn frame_uniforms(
        &self,
        view: &FrameView,
        environment: EnvChoice,
        resolution: (u32, u32),
        lights: &LightCollection,
    ) -> (uniforms: FrameUniforms)
        requires
            self.gpu_scene is Some,
        ensures
            uniforms == self.uniforms(*view, environment.signature, resolution, *lights),
    {
        let zero_number = F32::from_bits(0);
        let one_number = F32::from_bits(ONE_BITS);
        let (num_triangles, num_lights, num_emitters): (u32, u32, u32) = match &self.gpu_scene {
            Some(gpu) => (gpu.num_triangles, gpu.num_lights, gpu.num_emitters),
            None => (0, 0, 0),
        };
        let (has_translucent, has_non_shadow_caster): (bool, bool) = match &self.gpu_scene {
            Some(gpu) => (gpu.has_translucent, gpu.has_non_shadow_caster),
            None => (false, false),
        };
        FrameUniforms {
            inv_view_proj: view.inv_view_proj,
            env_rotation: [
                view.env_cos,
                view.env_sin,
                environment.signature.intensity,
                zero_number,
            ],
            cam_eye: view.eye,
            width: resolution.0,
            height: resolution.1,
            sample_index: self.sample_index,
            num_triangles,
            num_lights,
            ambient: lights.ambient,
            max_bounces: self.max_bounces,
            seed: self.sample_index,
            samples_per_frame: self.samples_per_frame,
            num_emitters,
            lens_radius: self.lens_radius,
            focus_distance: self.focus_distance,
            has_env: if environment.signature.present {
                1
            } else {
                0
            },
            background: [
                view.background.r,
                view.background.g,
                view.background.b,
                if has_translucent {
                    one_number
                } else {
                    zero_number
                },
            ],
            ambient_color: [
                lights.ambient_color.r,
                lights.ambient_color.g,
                lights.ambient_color.b,
                one_number,
            ],
            fog_color: [
                lights.fog.color.r,
                lights.fog.color.g,
                lights.fog.color.b,
                lights.fog.color.a,
            ],
            fog_params: lights.fog.params,
            flags: [
                if has_non_shadow_caster {
                    1
                } else {
                    0
                },
                0,
                0,
                0,
            ],
        }
    }

    /// How many denoiser iterations a frame gets; none where the denoiser is off.
    /// `tapered` is as for [`effective_denoise_iterations`], for the samples that the
    /// image has after the frame.
    pub fn denoise_iterations(&self, tapered: u32) -> (iterations: u32)
        requires
            self.sample_index + self.samples_per_frame <= u32::MAX,
        ensures
            iterations == self.denoise_count(tapered),
    {
        if self.denoise_enabled {
            effective_denoise_iterations(
                self.denoise_iterations,
                self.sample_index + self.samples_per_frame,
                tapered,
            )
        } else {
            0
        }
    }

    /// Counts the samples of a frame that was traced.
    pub fn end_frame(&mut self)
        requires
            old(self).sample_index + old(self).samples_per_frame <= u32::MAX,
        ensures
            *final(self) == old(self).counted(),
    {
        self.sample_index = self.sample_index + self.samples_per_frame;
    }
}

impl<N> RayTracer<N> {
    /// Starts a frame over the visible nodes of a scene: hashes their content, tells what
    /// changed, and remembers the camera.
    pub fn start_frame(
        &mut self,
        nodes: &Vec<SceneNode3d>,
        lights: &LightCollection,
        render_layers: u32,
        camera: [F32; 16],
        skybox: Option<Skybox>,
    ) -> (plan: FramePlan)
        ensures
            plan == old(self).plan(nodes@, *lights, render_layers, camera, skybox),
            *final(self) == (RayTracer { last_camera: camera, ..*old(self) }),
    {
        let (geom_hash, xform_hash): (u64, u64) = scene_hashes(nodes, lights, render_layers);
        let changes = self.begin_frame(camera, geom_hash, xform_hash);
        FramePlan {
            changes,
            geom_hash,
            xform_hash,
            environment: self.choose_environment(skybox),
            scale: self.frame_scale(changes),
            action: self.scene_action(changes),
        }
    }

    /// Fixes the resolution of a planned frame, restarts accumulation where the image is
    /// no longer good, and gives the parameters of the kernel. `rounded` and `scaled` are
    /// as for [`RayTracer::render_resolution`].
    pub fn trace_frame(
        &mut self,
        plan: &FramePlan,
        rounded: (u32, u32),
        scaled: (u32, u32),
        view: &FrameView,
        lights: &LightCollection,
    ) -> (step: FrameStep)
        requires
            old(self).gpu_scene is Some,
        ensures
            step == old(self).frame_step(*plan, rounded, scaled, *view, *lights),
            step.resolution == old(self).resolution(rounded, scaled),
            step.reset == old(self).restarts(
                plan.changes,
                plan.environment.signature,
                step.resolution,
            ),
            step.uniforms == final(self).uniforms(
                *view,
                plan.environment.signature,
                step.resolution,
                *lights,
            ),
            *final(self) == old(self).accumulating(
                plan.changes,
                plan.environment.signature,
                step.resolution,
            ),
            old(self).valid() ==> final(self).valid(),
    {
        let resolution = self.render_resolution(rounded, scaled);
        let reset = self.update_accumulation(plan.changes, plan.environment, resolution);
        let uniforms = self.frame_uniforms(view, plan.environment, resolution, lights);
        FrameStep { reset, resolution, uniforms }
    }

    /// Finishes a frame: tells how many denoiser iterations it gets, and counts its
    /// samples. `tapered` is as for [`RayTracer::denoise_iterations`].
    pub fn finish_frame(&mut self, tapered: u32) -> (iterations: u32)
        requires
            old(self).sample_index + old(self).samples_per_frame <= u32::MAX,
        ensures
            iterations == old(self).denoise_count(tapered),
            *final(self) == old(self).counted(),
            old(self).valid() ==> final(self).valid(),
    {
        let iterations: u32 = self.denoise_iterations(tapered);
        self.end_frame();
        iterations
    }
}

impl<N: Copy> RayTracer<N> {
    /// Replaces the GPU scene by `scene`, laid out for the backend of the tracer. A request
    /// to build it anew is then done.
    pub fn build_scene(&mut self, scene: &RtScene, bvh: &SceneBvh<N>, empty_node: N)
        requires
            buildable(*scene, old(self).backend, *bvh),
        ensures
            *final(self) == (RayTracer {
                gpu_scene: final(self).gpu_scene,
                rebuild_requested: false,
                ..*old(self)
            }),
            final(self).gpu_scene is Some,
            final(self).gpu_scene->0@ == gpu_model(*scene, old(self).backend, *bvh, empty_node),
            old(self).valid() ==> final(self).valid(),
    {
        self.gpu_scene = Some(GpuScene::build(scene, self.backend, bvh, empty_node));
        self.rebuild_requested = false;
    }

    /// Moves the instances of the GPU scene. Returns what is left to do: nothing, or to
    /// build the scene anew where they could not be moved.
    pub fn move_instances(
        &mut self,
        placements: &Vec<Placement>,
        top: &TopBvh<N>,
        empty_node: N,
        xform_hash: u64,
    ) -> (left: SceneAction)
        requires
            old(self).gpu_scene matches Some(gpu) ==> gpu@.takes(placements@.len(), *top),
        ensures
            left == if (old(self).gpu_scene matches Some(gpu) && gpu@.updatable(
                placements@.len(),
                top.nodes@.len(),
            )) {
                SceneAction::Keep
            } else {
                SceneAction::Rebuild
            },
            *final(self) == (RayTracer { gpu_scene: final(self).gpu_scene, ..*old(self) }),
            final(self).gpu_scene is Some <==> old(self).gpu_scene is Some,
            old(self).gpu_scene matches Some(gpu) ==> final(self).gpu_scene->0@ == gpu@.updated(
                placements@,
                *top,
                empty_node,
                xform_hash,
            ),
            old(self).valid() ==> final(self).valid(),
    {
        let moved = match &mut self.gpu_scene {
            Some(gpu) => gpu.update_transforms(placements, top, empty_node, xform_hash),
            None => false,
        };
        if moved {
            SceneAction::Keep
        } else {
            SceneAction::Rebuild
        }
    }
}

} // verus!
