//! Numbers, hashing and boxes against the numbers of the machine.

use raytracer::bounds::{aabb_corners, mesh_aabbs, mesh_local_aabb, transform_aabb, Aabb};
use raytracer::float::F32;
use raytracer::fnv::Fnv;
use raytracer::records::{RtMeshRange, RtScene, RtVertex};
use raytracer::scene::Vec3;

fn f(v: f32) -> F32 {
    F32::from_bits(v.to_bits())
}

fn v3(x: f32, y: f32, z: f32) -> Vec3 {
    Vec3 { x: f(x), y: f(y), z: f(z) }
}

fn samples() -> Vec<f32> {
    vec![
        0.0,
        -0.0,
        1.0,
        -1.0,
        0.05,
        1e-3,
        1e-45,
        -1e-45,
        1.17549435e-38,
        1.1754942e-38,
        3.4028235e38,
        -3.4028235e38,
        f32::INFINITY,
        f32::NEG_INFINITY,
        f32::NAN,
        -f32::NAN,
        0.1,
        0.2,
        1.0000001,
        16777216.0,
    ]
}

#[test]
fn comparisons_are_those_of_the_machine() {
    for a in samples() {
        assert_eq!(f(a).is_nan(), a.is_nan());
        assert_eq!(f(a).is_finite(), a.is_finite());
        for b in samples() {
            assert_eq!(f(a).lt(f(b)), a < b, "{a} < {b}");
            assert_eq!(f(a).num_eq(f(b)), a == b, "{a} == {b}");
        }
    }
}

#[test]
fn larger_number_is_that_of_the_machine() {
    for a in samples() {
        for b in samples() {
            let got = f32::from_bits(f(a).max(f(b)).bits);
            let want = a.max(b);
            assert!(got == want || (got.is_nan() && want.is_nan()), "max({a}, {b})");
        }
    }
}

#[test]
fn clamping_is_that_of_the_machine() {
    for a in samples() {
        let got = f32::from_bits(f(a).clamp(f(0.05), f(1.0)).bits);
        let want = a.clamp(0.05, 1.0);
        assert!(got == want || (got.is_nan() && want.is_nan()), "clamp({a})");
    }
}

#[test]
fn hash_of_nothing_is_the_offset_basis() {
    assert_eq!(Fnv::new().finish(), 0xcbf29ce484222325);
}

#[test]
fn hash_of_a_known_word() {
    // The published FNV-1a hash of the bytes of "foob".
    let mut h = Fnv::new();
    h.write_u32(u32::from_le_bytes(*b"foob"));
    let mut expected: u64 = 0xcbf29ce484222325;
    for b in b"foob" {
        expected ^= *b as u64;
        expected = expected.wrapping_mul(0x100000001b3);
    }
    assert_eq!(h.finish(), expected);
    assert_eq!(h.finish(), 0xdd120e790c2512af);
}

#[test]
fn both_zeros_hash_equally() {
    let mut a = Fnv::new();
    let mut b = Fnv::new();
    a.write_f32(f(0.0));
    b.write_f32(f(-0.0));
    assert_eq!(a.finish(), b.finish());
    let mut c = Fnv::new();
    c.write_f32(f(1e-45));
    assert_ne!(a.finish(), c.finish());
}

#[test]
fn vector_hashes_as_its_components() {
    let mut a = Fnv::new();
    let mut b = Fnv::new();
    a.write_vec3(v3(1.0, -2.0, 3.5));
    b.write_f32(f(1.0));
    b.write_f32(f(-2.0));
    b.write_f32(f(3.5));
    assert_eq!(a.finish(), b.finish());
    let mut c = Fnv::new();
    c.write_vec3(v3(-2.0, 1.0, 3.5));
    assert_ne!(a.finish(), c.finish());
}

fn vertex(x: f32, y: f32, z: f32) -> RtVertex {
    RtVertex { position: [f(x), f(y), f(z)], ..RtVertex::default() }
}

fn range(vert_start: u32, vert_count: u32) -> RtMeshRange {
    RtMeshRange { vert_start, vert_count, tri_start: 0, tri_count: 0 }
}

#[test]
fn box_of_a_mesh_holds_its_vertices_alone() {
    let vertices = vec![
        vertex(100.0, 100.0, 100.0),
        vertex(1.0, -2.0, 3.0),
        vertex(-1.0, 5.0, 0.5),
        vertex(0.0, 0.0, 9.0),
        vertex(-100.0, 0.0, 0.0),
    ];
    let b = mesh_local_aabb(&vertices, range(1, 3));
    assert_eq!(b, Aabb { lo: v3(-1.0, -2.0, 0.5), hi: v3(1.0, 5.0, 9.0) });
}

#[test]
fn box_of_an_empty_mesh_is_the_origin() {
    let vertices = vec![vertex(1.0, 1.0, 1.0)];
    let b = mesh_local_aabb(&vertices, range(1, 0));
    assert_eq!(b, Aabb { lo: v3(0.0, 0.0, 0.0), hi: v3(0.0, 0.0, 0.0) });
}

#[test]
fn every_mesh_has_its_own_box() {
    let scene = RtScene {
        mesh_vertices: vec![vertex(1.0, 1.0, 1.0), vertex(2.0, 2.0, 2.0), vertex(3.0, 0.0, 3.0)],
        mesh_ranges: vec![range(0, 1), range(1, 2)],
        ..RtScene::default()
    };
    let boxes = mesh_aabbs(&scene);
    assert_eq!(boxes.len(), 2);
    assert_eq!(boxes[0], Aabb { lo: v3(1.0, 1.0, 1.0), hi: v3(1.0, 1.0, 1.0) });
    assert_eq!(boxes[1], Aabb { lo: v3(2.0, 0.0, 2.0), hi: v3(3.0, 2.0, 3.0) });
}

#[test]
fn corners_take_every_choice_of_bounds() {
    let b = Aabb { lo: v3(0.0, 1.0, 2.0), hi: v3(10.0, 11.0, 12.0) };
    let corners = aabb_corners(b);
    for (i, c) in corners.iter().enumerate() {
        assert_eq!(c.x, if i & 1 == 0 { f(0.0) } else { f(10.0) });
        assert_eq!(c.y, if i & 2 == 0 { f(1.0) } else { f(11.0) });
        assert_eq!(c.z, if i & 4 == 0 { f(2.0) } else { f(12.0) });
    }
}

#[test]
fn transformed_box_holds_the_transformed_corners() {
    let b = Aabb { lo: v3(-1.0, -1.0, -1.0), hi: v3(1.0, 2.0, 3.0) };
    let m = glamx::Mat4::from_translation(glamx::Vec3::new(5.0, 0.0, 0.0))
        * glamx::Mat4::from_rotation_z(0.5);
    let mut lo = glamx::Vec3::splat(f32::INFINITY);
    let mut hi = glamx::Vec3::splat(f32::NEG_INFINITY);
    let mut moved = aabb_corners(b);
    for c in moved.iter_mut() {
        let p = glamx::Vec3::new(
            f32::from_bits(c.x.bits),
            f32::from_bits(c.y.bits),
            f32::from_bits(c.z.bits),
        );
        let w = m.transform_point3(p);
        lo = lo.min(w);
        hi = hi.max(w);
        *c = v3(w.x, w.y, w.z);
    }
    let got = transform_aabb(&moved);
    assert_eq!(got, Aabb { lo: v3(lo.x, lo.y, lo.z), hi: v3(hi.x, hi.y, hi.z) });
}

#[test]
fn nan_vertices_are_treated_as_the_vector_library_does() {
    let points = [
        glamx::Vec3::new(1.0, f32::NAN, 2.0),
        glamx::Vec3::new(f32::NAN, 1.0, 0.0),
        glamx::Vec3::new(0.5, 3.0, f32::NAN),
    ];
    let mut lo = glamx::Vec3::splat(f32::INFINITY);
    let mut hi = glamx::Vec3::splat(f32::NEG_INFINITY);
    let mut vertices = Vec::new();
    for p in points {
        lo = lo.min(p);
        hi = hi.max(p);
        vertices.push(vertex(p.x, p.y, p.z));
    }
    let b = mesh_local_aabb(&vertices, range(0, 3));
    assert_eq!(b, Aabb { lo: v3(lo.x, lo.y, lo.z), hi: v3(hi.x, hi.y, hi.z) });
}

#[test]
fn change_of_a_single_byte_changes_the_hash() {
    let hash = |words: [u32; 3]| {
        let mut h = Fnv::new();
        for w in words {
            h.write_u32(w);
        }
        h.finish()
    };
    let base = hash([1, 2, 3]);
    for shift in [0, 8, 16, 24] {
        assert_ne!(base, hash([1, 2 ^ (0x55 << shift), 3]));
    }
}
