//! Axis-aligned bounding boxes.

use crate::float::F32;
use crate::records::{number, RtMeshRange, RtScene, RtVertex};
use crate::scene::{zero_vec3, Vec3};
use vstd::prelude::*;

verus! {

/// The bit pattern of infinity.
pub const INFINITY_BITS: u32 = 0x7f80_0000;

/// The bit pattern of negative infinity.
pub const NEG_INFINITY_BITS: u32 = 0xff80_0000;

/// A box, as its lower and its upper corner.
#[derive(Clone, Copy, Debug, PartialEq, Eq, Structural)]
pub struct Aabb {
    pub lo: Vec3,
    pub hi: Vec3,
}

/// The smaller of two numbers; the second where neither is smaller.
pub open spec fn lower(a: F32, b: F32) -> F32 {
    if a.less(b) {
        a
    } else {
        b
    }
}

/// The larger of two numbers; the second where neither is larger.
pub open spec fn upper(a: F32, b: F32) -> F32 {
    if b.less(a) {
        a
    } else {
        b
    }
}

/// The componentwise lower bound of two points.
pub open spec fn lower_point(a: Vec3, b: Vec3) -> Vec3 {
    Vec3 { x: lower(a.x, b.x), y: lower(a.y, b.y), z: lower(a.z, b.z) }
}

/// The componentwise upper bound of two points.
pub open spec fn upper_point(a: Vec3, b: Vec3) -> Vec3 {
    Vec3 { x: upper(a.x, b.x), y: upper(a.y, b.y), z: upper(a.z, b.z) }
}

/// The box that holds nothing: from infinity to negative infinity.
pub open spec fn empty_box() -> Aabb {
    let inf = number(INFINITY_BITS);
    let neg = number(NEG_INFINITY_BITS);
    Aabb { lo: Vec3 { x: inf, y: inf, z: inf }, hi: Vec3 { x: neg, y: neg, z: neg } }
}

/// The empty box extended by the points, one after the other.
pub open spec fn box_of(points: Seq<Vec3>) -> Aabb
    decreases points.len(),
{
    if points.len() == 0 {
        empty_box()
    } else {
        let before = box_of(points.drop_last());
        Aabb {
            lo: lower_point(before.lo, points.last()),
            hi: upper_point(before.hi, points.last()),
        }
    }
}

/// The position of a vertex.
pub open spec fn vertex_point(v: RtVertex) -> Vec3 {
    Vec3 { x: v.position[0], y: v.position[1], z: v.position[2] }
}

/// The range lies within `n` vertices.
pub open spec fn vertices_within(range: RtMeshRange, n: nat) -> bool {
    range.vert_start + range.vert_count <= u32::MAX && range.vert_start + range.vert_count <= n
}

/// The positions of the vertices of a mesh.
pub open spec fn mesh_points(vertices: Seq<RtVertex>, range: RtMeshRange) -> Seq<Vec3> {
    Seq::new(
        range.vert_count as nat,
        |i: int| vertex_point(vertices[range.vert_start + i]),
    )
}

/// The box of a mesh in its own space; the origin for a mesh without vertices.
pub open spec fn mesh_box(vertices: Seq<RtVertex>, range: RtMeshRange) -> Aabb {
    if range.vert_count == 0 {
        Aabb { lo: zero_vec3(), hi: zero_vec3() }
    } else {
        box_of(mesh_points(vertices, range))
    }
}

/// Corner `i` of a box: bit 0, 1 and 2 of `i` pick the upper X, Y and Z.
pub open spec fn corner(b: Aabb, i: int) -> Vec3 {
    Vec3 {
        x: if i % 2 == 0 {
            b.lo.x
        } else {
            b.hi.x
        },
        y: if i / 2 % 2 == 0 {
            b.lo.y
        } else {
            b.hi.y
        },
        z: if i / 4 % 2 == 0 {
            b.lo.z
        } else {
            b.hi.z
        },
    }
}

fn lower_of(a: Vec3, b: Vec3) -> (r: Vec3)
    ensures
        r == lower_point(a, b),
{
    Vec3 {
        x: if a.x.lt(b.x) {
            a.x
        } else {
            b.x
        },
        y: if a.y.lt(b.y) {
            a.y
        } else {
            b.y
        },
        z: if a.z.lt(b.z) {
            a.z
        } else {
            b.z
        },
    }
}

fn upper_of(a: Vec3, b: Vec3) -> (r: Vec3)
    ensures
        r == upper_point(a, b),
{
    Vec3 {
        x: if b.x.lt(a.x) {
            a.x
        } else {
            b.x
        },
        y: if b.y.lt(a.y) {
            a.y
        } else {
            b.y
        },
        z: if b.z.lt(a.z) {
            a.z
        } else {
            b.z
        },
    }
}

fn nothing() -> (b: Aabb)
    ensures
        b == empty_box(),
{
    let inf = F32::from_bits(INFINITY_BITS);
    let neg = F32::from_bits(NEG_INFINITY_BITS);
    Aabb { lo: Vec3 { x: inf, y: inf, z: inf }, hi: Vec3 { x: neg, y: neg, z: neg } }
}

fn extended(b: Aabb, p: Vec3) -> (r: Aabb)
    ensures
        r.lo == lower_point(b.lo, p),
        r.hi == upper_point(b.hi, p),
{
    Aabb { lo: lower_of(b.lo, p), hi: upper_of(b.hi, p) }
}

/// The box of one mesh's vertices, in the space of the mesh.
pub fn mesh_local_aabb(vertices: &Vec<RtVertex>, range: RtMeshRange) -> (b: Aabb)
    requires
        vertices_within(range, vertices@.len()),
    ensures
        b == mesh_box(vertices@, range),
{
    if range.vert_count == 0 {
        let zero_number = F32::from_bits(0);
        let origin = Vec3 { x: zero_number, y: zero_number, z: zero_number };
        return Aabb { lo: origin, hi: origin };
    }
    let ghost points = mesh_points(vertices@, range);
    let start: usize = range.vert_start as usize;
    let count: usize = range.vert_count as usize;
    let mut b = nothing();
    let mut i: usize = 0;
    while i < count
        invariant
            i <= count,
            start == range.vert_start,
            count == range.vert_count,
            vertices_within(range, vertices@.len()),
            points == mesh_points(vertices@, range),
            b == box_of(points.take(i as int)),
        decreases count - i,
    {
        let v = &vertices[start + i];
        let p = Vec3 { x: v.position[0], y: v.position[1], z: v.position[2] };
        b = extended(b, p);
        assert(points.take(i + 1).drop_last() =~= points.take(i as int));
        assert(points.take(i + 1).last() == p);
        i = i + 1;
    }
    assert(points.take(i as int) =~= points);
    b
}

/// The boxes of every mesh of a scene.
pub fn mesh_aabbs(scene: &RtScene) -> (boxes: Vec<Aabb>)
    requires
        forall|m: int|
            0 <= m < scene.mesh_ranges@.len() ==> vertices_within(
                #[trigger] scene.mesh_ranges@[m],
                scene.mesh_vertices@.len(),
            ),
    ensures
        boxes@ == scene.mesh_ranges@.map_values(
            |range: RtMeshRange| mesh_box(scene.mesh_vertices@, range),
        ),
{
    let ghost all = scene.mesh_ranges@.map_values(
        |range: RtMeshRange| mesh_box(scene.mesh_vertices@, range),
    );
    let mut boxes: Vec<Aabb> = Vec::new();
    let mut m: usize = 0;
    while m < scene.mesh_ranges.len()
        invariant
            m <= scene.mesh_ranges.len(),
            forall|m: int|
                0 <= m < scene.mesh_ranges@.len() ==> vertices_within(
                    #[trigger] scene.mesh_ranges@[m],
                    scene.mesh_vertices@.len(),
                ),
            all == scene.mesh_ranges@.map_values(
                |range: RtMeshRange| mesh_box(scene.mesh_vertices@, range),
            ),
            boxes@ == all.take(m as int),
        decreases scene.mesh_ranges.len() - m,
    {
        let b = mesh_local_aabb(&scene.mesh_vertices, scene.mesh_ranges[m]);
        boxes.push(b);
        assert(boxes@ =~= all.take(m + 1));
        m = m + 1;
    }
    assert(all.take(m as int) =~= all);
    boxes
}

/// The eight corners of a box.
pub fn aabb_corners(b: Aabb) -> (corners: [Vec3; 8])
    ensures
        forall|i: int| 0 <= i < 8 ==> #[trigger] corners@[i] == corner(b, i),
{
    let lo = b.lo;
    let hi = b.hi;
    [
        Vec3 { x: lo.x, y: lo.y, z: lo.z },
        Vec3 { x: hi.x, y: lo.y, z: lo.z },
        Vec3 { x: lo.x, y: hi.y, z: lo.z },
        Vec3 { x: hi.x, y: hi.y, z: lo.z },
        Vec3 { x: lo.x, y: lo.y, z: hi.z },
        Vec3 { x: hi.x, y: lo.y, z: hi.z },
        Vec3 { x: lo.x, y: hi.y, z: hi.z },
        Vec3 { x: hi.x, y: hi.y, z: hi.z },
    ]
}

/// The box of a transformed box, from its eight transformed corners.
pub fn transform_aabb(corners: &[Vec3; 8]) -> (b: Aabb)
    ensures
        b == box_of(corners@),
{
    let mut b = nothing();
    let mut i: usize = 0;
    while i < 8
        invariant
            i <= 8,
            b == box_of(corners@.take(i as int)),
        decreases 8 - i,
    {
        b = extended(b, corners[i]);
        assert(corners@.take(i + 1).drop_last() =~= corners@.take(i as int));
        i = i + 1;
    }
    assert(corners@.take(i as int) =~= corners@);
    b
}

/// `p` lies in the box, component by component.
pub open spec fn holds(b: Aabb, p: Vec3) -> bool {
    &&& b.lo.x.value() <= p.x.value() <= b.hi.x.value()
    &&& b.lo.y.value() <= p.y.value() <= b.hi.y.value()
    &&& b.lo.z.value() <= p.z.value() <= b.hi.z.value()
}

/// No component is a NaN.
pub open spec fn numeric(p: Vec3) -> bool {
    !p.x.nan() && !p.y.nan() && !p.z.nan()
}

/// The box of points that hold no NaN holds every one of them.
pub proof fn law_box_holds_points(points: Seq<Vec3>)
    requires
        forall|i: int| 0 <= i < points.len() ==> numeric(#[trigger] points[i]),
    ensures
        forall|i: int| 0 <= i < points.len() ==> holds(box_of(points), #[trigger] points[i]),
        numeric(box_of(points).lo),
        numeric(box_of(points).hi),
    decreases points.len(),
{
    if points.len() > 0 {
        let rest = points.drop_last();
        assert forall|i: int| 0 <= i < rest.len() implies numeric(#[trigger] rest[i]) by {
            assert(rest[i] == points[i]);
        }
        law_box_holds_points(rest);
        assert(numeric(points[points.len() - 1]));
        assert forall|i: int| 0 <= i < points.len() implies holds(
            box_of(points),
            #[trigger] points[i],
        ) by {
            if i < rest.len() {
                assert(rest[i] == points[i]);
                assert(holds(box_of(rest), rest[i]));
            }
        }
    }
}

/// The box of points that hold no NaN is tight: each of its six bounds is the
/// component of some point.
pub proof fn law_box_is_tight(points: Seq<Vec3>)
    requires
        points.len() > 0,
        forall|i: int| 0 <= i < points.len() ==> numeric(#[trigger] points[i]),
    ensures
        exists|i: int| 0 <= i < points.len() && (#[trigger] points[i]).x == box_of(points).lo.x,
        exists|i: int| 0 <= i < points.len() && (#[trigger] points[i]).y == box_of(points).lo.y,
        exists|i: int| 0 <= i < points.len() && (#[trigger] points[i]).z == box_of(points).lo.z,
        exists|i: int| 0 <= i < points.len() && (#[trigger] points[i]).x == box_of(points).hi.x,
        exists|i: int| 0 <= i < points.len() && (#[trigger] points[i]).y == box_of(points).hi.y,
        exists|i: int| 0 <= i < points.len() && (#[trigger] points[i]).z == box_of(points).hi.z,
    decreases points.len(),
{
    let rest = points.drop_last();
    let last = points[points.len() - 1];
    assert(numeric(last));
    assert forall|i: int| 0 <= i < rest.len() implies numeric(#[trigger] rest[i]) && rest[i]
        == points[i] by {
        assert(rest[i] == points[i]);
    }
    if rest.len() == 0 {
        assert(rest =~= Seq::empty());
        assert(box_of(rest) == empty_box());
        lemma_infinity_is_extreme(last.x);
        lemma_infinity_is_extreme(last.y);
        lemma_infinity_is_extreme(last.z);
        assert(points[0] == last);
    } else {
        law_box_is_tight(rest);
        let b = box_of(rest);
        let a1 = choose|i: int| 0 <= i < rest.len() && (#[trigger] rest[i]).x == b.lo.x;
        let a2 = choose|i: int| 0 <= i < rest.len() && (#[trigger] rest[i]).y == b.lo.y;
        let a3 = choose|i: int| 0 <= i < rest.len() && (#[trigger] rest[i]).z == b.lo.z;
        let a4 = choose|i: int| 0 <= i < rest.len() && (#[trigger] rest[i]).x == b.hi.x;
        let a5 = choose|i: int| 0 <= i < rest.len() && (#[trigger] rest[i]).y == b.hi.y;
        let a6 = choose|i: int| 0 <= i < rest.len() && (#[trigger] rest[i]).z == b.hi.z;
        assert(points[a1] == rest[a1] && points[a2] == rest[a2] && points[a3] == rest[a3]);
        assert(points[a4] == rest[a4] && points[a5] == rest[a5] && points[a6] == rest[a6]);
        assert(points[points.len() - 1] == last);
    }
}

/// Extending the empty box along one axis by a number gives that number.
proof fn lemma_infinity_is_extreme(v: F32)
    requires
        !v.nan(),
    ensures
        lower(number(INFINITY_BITS), v) == v,
        upper(number(NEG_INFINITY_BITS), v) == v,
{
    crate::float::lemma_below_infinity(v);
}

} // verus!
