//! The records as the GPU reads them.

use raytracer::float::F32;
use raytracer::records::{
    RtEmitter, RtInstance, RtLight, RtMaterial, RtMeshDesc, RtTriangle, RtVertex,
};
use raytracer::upload::{buffer_contents, buffer_from, GpuRecord};

fn f(v: f32) -> F32 {
    F32::from_bits(v.to_bits())
}

fn bytes_of_words(words: &[u32]) -> Vec<u8> {
    words.iter().flat_map(|w| w.to_ne_bytes()).collect()
}

#[test]
fn bytes_are_the_memory_of_the_words() {
    let data: Vec<u32> = vec![0x01020304, 0xffffffff, 7];
    let bytes = buffer_from(&data);
    assert_eq!(bytes, bytes_of_words(&[0x01020304, 0xffffffff, 7]));
    assert_eq!(bytes.len(), 12);
}

#[test]
fn empty_buffers_hold_one_zeroed_record() {
    assert_eq!(buffer_from::<u32>(&vec![]), vec![0u8; 4]);
    assert_eq!(buffer_from::<RtVertex>(&vec![]), vec![0u8; 32]);
    assert_eq!(buffer_from::<RtTriangle>(&vec![]), vec![0u8; 16]);
    assert_eq!(buffer_from::<RtEmitter>(&vec![]), vec![0u8; 64]);
    assert_eq!(buffer_from::<RtMaterial>(&vec![]), vec![0u8; 128]);
    assert_eq!(buffer_from::<RtLight>(&vec![]), vec![0u8; 80]);
    assert_eq!(buffer_from::<RtInstance>(&vec![]), vec![0u8; 144]);
    assert_eq!(buffer_from::<RtMeshDesc>(&vec![]), vec![0u8; 16]);
}

#[test]
fn record_sizes_are_those_of_the_kernel() {
    assert_eq!(RtVertex::word_count() * 4, 32);
    assert_eq!(RtTriangle::word_count() * 4, 16);
    assert_eq!(RtEmitter::word_count() * 4, 64);
    assert_eq!(RtMaterial::word_count() * 4, 128);
    assert_eq!(RtLight::word_count() * 4, 80);
    assert_eq!(RtInstance::word_count() * 4, 144);
    assert_eq!(RtMeshDesc::word_count() * 4, 16);
}

#[test]
fn vertex_packs_its_texture_coordinate_into_the_fourth_lanes() {
    let v = RtVertex {
        position: [f(1.0), f(2.0), f(3.0)],
        u: f(0.25),
        normal: [f(0.0), f(1.0), f(0.0)],
        v: f(0.75),
    };
    let want: Vec<u32> = [1.0f32, 2.0, 3.0, 0.25, 0.0, 1.0, 0.0, 0.75]
        .iter()
        .map(|x| x.to_bits())
        .collect();
    assert_eq!(buffer_contents(&vec![v]), want);
}

#[test]
fn triangles_follow_one_another() {
    let a = RtTriangle { v0: 1, v1: 2, v2: 3, material_id: 4 };
    let b = RtTriangle { v0: 5, v1: 6, v2: 7, material_id: 8 };
    assert_eq!(buffer_contents(&vec![a, b]), vec![1, 2, 3, 4, 5, 6, 7, 8]);
}

#[test]
fn mesh_descriptor_is_one_row() {
    let d = RtMeshDesc { node_offset: 9, tri_offset: 10, _pad: [0, 0] };
    assert_eq!(buffer_contents(&vec![d]), vec![9, 10, 0, 0]);
}

#[test]
fn emitter_is_four_padded_rows() {
    let e = RtEmitter {
        p0: [f(1.0), f(2.0), f(3.0)],
        p1: [f(4.0), f(5.0), f(6.0)],
        p2: [f(7.0), f(8.0), f(9.0)],
        emission: [f(0.5), f(0.25), f(0.125)],
        ..RtEmitter::default()
    };
    let want: Vec<u32> = [
        1.0f32, 2.0, 3.0, 0.0, 4.0, 5.0, 6.0, 0.0, 7.0, 8.0, 9.0, 0.0, 0.5, 0.25, 0.125, 0.0,
    ]
    .iter()
    .map(|x| x.to_bits())
    .collect();
    assert_eq!(buffer_contents(&vec![e]), want);
}

#[test]
fn plain_material_in_words() {
    let one = 1.0f32.to_bits();
    let half = 0.5f32.to_bits();
    let want = vec![
        one, one, one, one, // base color
        0, 0, 0, one, // emissive
        0, half, 1.5f32.to_bits(), 0, // metallic, roughness, ior, transmission
        one, one, one, 0, // specular tint, surface model
        0, 0, half, u32::MAX, // subsurface, its radius, reflectance, light layers
        one, one, one, (-1.0f32).to_bits(), // absorption
        0, 0, 1, 0, // clearcoat, its roughness, shadows, padding
        u32::MAX, u32::MAX, u32::MAX, u32::MAX, // no textures
    ];
    assert_eq!(buffer_contents(&vec![RtMaterial::default()]), want);
}

#[test]
fn light_in_words() {
    let l = RtLight {
        position: [f(1.0), f(2.0), f(3.0)],
        light_type: 2,
        direction: [f(4.0), f(5.0), f(6.0)],
        intensity: f(7.0),
        color: [f(8.0), f(9.0), f(10.0)],
        attenuation_radius: f(11.0),
        inner_cone_cos: f(12.0),
        outer_cone_cos: f(13.0),
        radius: f(14.0),
        layers: 15,
        casts_shadows: 1,
        ..RtLight::default()
    };
    let b = |x: f32| x.to_bits();
    let want = vec![
        b(1.0), b(2.0), b(3.0), 2,
        b(4.0), b(5.0), b(6.0), b(7.0),
        b(8.0), b(9.0), b(10.0), b(11.0),
        b(12.0), b(13.0), b(14.0), 15,
        1, 0, 0, 0,
    ];
    assert_eq!(buffer_contents(&vec![l]), want);
}

#[test]
fn instance_is_two_matrices_and_a_row() {
    let m = |base: f32| {
        let mut out = [[f(0.0); 4]; 4];
        for c in 0..4 {
            for r in 0..4 {
                out[c][r] = f(base + (c * 4 + r) as f32);
            }
        }
        out
    };
    let i = RtInstance {
        world_to_object: m(0.0),
        object_to_world: m(100.0),
        mesh_id: 1,
        material_id: 2,
        node_offset: 3,
        tri_offset: 4,
    };
    let mut want: Vec<u32> = (0..16).map(|k| (k as f32).to_bits()).collect();
    want.extend((0..16).map(|k| (100.0 + k as f32).to_bits()));
    want.extend([1, 2, 3, 4]);
    assert_eq!(buffer_contents(&vec![i]), want);
    assert_eq!(buffer_from(&vec![i, i]).len(), 288);
}
