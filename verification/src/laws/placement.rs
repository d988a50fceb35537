//! How copies are placed, morphed and skinned, and what bounds them.

use crate::bake::{
    instance_color, instance_deform, instance_position, morph_steps, nonzero, MorphStep,
};
use crate::bounds::{
    box_of, corner, holds, law_box_holds_points, law_box_is_tight, mesh_box, mesh_points, numeric,
    vertices_within, Aabb,
};
use crate::float::F32;
use crate::gpu_scene::scene_boxes;
use crate::laws::scene::{is_identity, spells};
use crate::records::{RtMeshRange, RtScene, RtVertex};
use crate::scene::{InstancesBuffer3d, Mat4, Object3d, Vec3};
use vstd::prelude::*;

verus! {

/// The columns of the copies, copy after copy.
pub open spec fn columns_of(copies: Seq<[Vec3; 3]>) -> Seq<Vec3>
    decreases copies.len(),
{
    if copies.len() == 0 {
        Seq::empty()
    } else {
        columns_of(copies.drop_last()) + copies.last()@
    }
}

proof fn lemma_columns(copies: Seq<[Vec3; 3]>, k: int, c: int)
    requires
        0 <= k < copies.len(),
        0 <= c < 3,
    ensures
        columns_of(copies).len() == 3 * copies.len(),
        columns_of(copies)[3 * k + c] == copies[k]@[c],
    decreases copies.len(),
{
    if copies.len() > 1 {
        lemma_columns(copies.drop_last(), 0, 0);
    } else {
        reveal_with_fuel(columns_of, 2);
        assert(copies.drop_last() =~= Seq::empty());
    }
    if k < copies.len() - 1 {
        lemma_columns(copies.drop_last(), k, c);
    }
}

/// Copies have deformations of their own: where the list holds the three columns of every
/// copy, copy after copy, the deformation of copy `k` is its own three columns, whatever the
/// others are.
pub proof fn law_copies_are_deformed_apart(
    instances: InstancesBuffer3d,
    copies: Seq<[Vec3; 3]>,
    k: int,
)
    requires
        instances.deformations is Some,
        instances.deformations->0@ == columns_of(copies),
        0 <= k < copies.len(),
    ensures
        instance_deform(instances, k)@ == copies[k]@,
{
    lemma_columns(copies, k, 0);
    lemma_columns(copies, k, 1);
    lemma_columns(copies, k, 2);
    assert(instance_deform(instances, k)@ =~= copies[k]@);
}

/// A copy whose columns the list does not hold in full is not deformed.
pub proof fn law_copies_without_columns_are_not_deformed(instances: InstancesBuffer3d, k: int)
    requires
        0 <= k,
        instances.deformations is None || instances.deformations->0@.len() < 3 * k + 3,
    ensures
        ({
            let d = instance_deform(instances, k)@;
            &&& d[0].x.bits == 0x3f80_0000 && d[0].y.bits == 0 && d[0].z.bits == 0
            &&& d[1].x.bits == 0 && d[1].y.bits == 0x3f80_0000 && d[1].z.bits == 0
            &&& d[2].x.bits == 0 && d[2].y.bits == 0 && d[2].z.bits == 0x3f80_0000
        }),
{
}

/// Copy `k` has the `k`-th offset and the `k`-th color; one beyond the lists has no offset
/// and is white.
pub proof fn law_copies_have_their_own_offset_and_color(instances: InstancesBuffer3d, k: int)
    requires
        0 <= k,
    ensures
        instances.positions matches Some(p) ==> (k < p@.len() ==> instance_position(instances, k)
            == p@[k]),
        instances.positions is None || k >= instances.positions->0@.len() ==> {
            let p = instance_position(instances, k);
            p.x.bits == 0 && p.y.bits == 0 && p.z.bits == 0
        },
        instances.colors matches Some(c) ==> (k < c@.len() ==> instance_color(instances, k)
            == c@[k]),
        instances.colors is None || k >= instances.colors->0@.len() ==> {
            let c = instance_color(instances, k)@;
            c[0].bits == 0x3f80_0000 && c[1].bits == 0x3f80_0000 && c[2].bits == 0x3f80_0000
                && c[3].bits == 0x3f80_0000
        },
{
}

/// The matrix that deforms with a joint is the palette's; the identity for a joint that the
/// palette lacks.
pub proof fn law_joints_index_the_palette(palette: Seq<Mat4>, joint: u32)
    ensures
        joint < palette.len() ==> Object3d::joint_matrix(palette, joint) == palette[joint as int],
        joint >= palette.len() ==> is_identity(Object3d::joint_matrix(palette, joint)),
{
}

/// A step is the target's: its weight, and the beginning of its deltas.
pub open spec fn step_of(step: MorphStep, weights: Seq<F32>, vertex_count: nat, t: int) -> bool {
    step.weight == weights[t] && step.base == t * vertex_count
}

/// The morph plan has a step for every target with a weight other than zero, in order, and
/// no other step: there is a list of targets, strictly rising, that are the steps' targets.
pub proof fn law_morph_steps_are_the_weighted_targets(
    weights: Seq<F32>,
    vertex_count: nat,
    n: nat,
) -> (targets: Seq<int>)
    requires
        n <= weights.len(),
        n * vertex_count <= usize::MAX,
    ensures
        targets.len() == morph_steps(weights, vertex_count, n).len(),
        forall|s: int|
            0 <= s < targets.len() ==> {
                let t = #[trigger] targets[s];
                &&& 0 <= t < n
                &&& !weights[t].same_number(F32 { bits: 0 })
                &&& step_of(morph_steps(weights, vertex_count, n)[s], weights, vertex_count, t)
            },
        forall|s: int, u: int| 0 <= s < u < targets.len() ==> targets[s] < targets[u],
        forall|t: int|
            0 <= t < n && !(#[trigger] weights[t]).same_number(F32 { bits: 0 })
                ==> targets.contains(t),
    decreases n,
{
    if n == 0 {
        Seq::empty()
    } else {
        assert((n - 1) * vertex_count <= n * vertex_count) by (nonlinear_arith)
            requires
                n > 0,
        ;
        assert(0 <= (n - 1) * vertex_count) by (nonlinear_arith)
            requires
                n > 0,
        ;
        let before = law_morph_steps_are_the_weighted_targets(
            weights,
            vertex_count,
            (n - 1) as nat,
        );
        if nonzero(weights[n - 1]) {
            let targets = before.push(n - 1);
            assert forall|t: int|
                0 <= t < n && !(#[trigger] weights[t]).same_number(
                    F32 { bits: 0 },
                ) implies targets.contains(t) by {
                if t < n - 1 {
                    let s = choose|s: int| 0 <= s < before.len() && before[s] == t;
                    assert(targets[s] == t);
                } else {
                    assert(targets[before.len() as int] == t);
                }
            }
            targets
        } else {
            before
        }
    }
}

/// Morphing moves as many vertices as both the mesh and its deltas have, and weighs as many
/// targets as there are both of them and of weights.
pub proof fn law_extent_of_morphing(object: Object3d)
    requires
        object.mesh.morph is Some,
        object.mesh.coords is Some,
    ensures
        ({
            let morph = object.mesh.morph->0;
            let n = object.mesh.coords->0@.len();
            let w = object.data.morph_weights@.len();
            &&& object.morphed_vertices() <= n && object.morphed_vertices() <= morph.vertex_count
            &&& object.morphed_vertices() == n || object.morphed_vertices() == morph.vertex_count
            &&& object.weighted_targets() <= w && object.weighted_targets() <= morph.target_count
            &&& object.weighted_targets() == w || object.weighted_targets() == morph.target_count
            &&& object.blends_normals() <==> morph.normals is Some
        }),
{
}

/// An object is morphed where its deltas are in main memory and some weight is not zero.
pub proof fn law_what_is_morphed(object: Object3d)
    ensures
        object.has_deltas() <==> object.mesh.morph is Some
            && object.mesh.morph->0.positions is Some,
        object.morphs() <==> object.mesh.morph is Some && object.mesh.morph->0.positions is Some
            && exists|t: int|
            0 <= t < object.data.morph_weights@.len() && !(
            #[trigger] object.data.morph_weights@[t]).same_number(F32 { bits: 0 }),
        object.undeformed() <==> !object.skinned() && !object.morphs(),
{
    if exists|t: int|
        0 <= t < object.data.morph_weights@.len() && !(
        #[trigger] object.data.morph_weights@[t]).same_number(F32 { bits: 0 }) {
        let t = choose|t: int|
            0 <= t < object.data.morph_weights@.len() && !(
            #[trigger] object.data.morph_weights@[t]).same_number(F32 { bits: 0 });
        assert(nonzero(object.data.morph_weights@[t]));
    }
}

/// The position of a vertex.
pub open spec fn at_vertex(vertex: RtVertex, p: Vec3) -> bool {
    spells(vertex.position, p)
}

/// The box of a mesh holds the positions of the mesh's own vertices, and each of its bounds
/// is a component of one of them; that of a mesh without vertices is the origin.
pub proof fn law_box_of_a_mesh(scene: RtScene, m: int, v: int)
    requires
        0 <= m < scene.mesh_ranges@.len(),
        vertices_within(scene.mesh_ranges@[m], scene.mesh_vertices@.len()),
        forall|k: int|
            0 <= k < scene.mesh_vertices@.len() ==> {
                let p = (#[trigger] scene.mesh_vertices@[k]).position@;
                !p[0].nan() && !p[1].nan() && !p[2].nan()
            },
    ensures
        ({
            let range = scene.mesh_ranges@[m];
            let start = range.vert_start as int;
            let end = range.vert_start + range.vert_count;
            let b = scene_boxes(scene)[m];
            let p = scene.mesh_vertices@[v].position@;
            &&& scene_boxes(scene).len() == scene.mesh_ranges@.len()
            &&& range.vert_count == 0 ==> {
                &&& b.lo.x.bits == 0 && b.lo.y.bits == 0 && b.lo.z.bits == 0
                &&& b.hi.x.bits == 0 && b.hi.y.bits == 0 && b.hi.z.bits == 0
            }
            &&& start <= v < end ==> {
                &&& b.lo.x.value() <= p[0].value() <= b.hi.x.value()
                &&& b.lo.y.value() <= p[1].value() <= b.hi.y.value()
                &&& b.lo.z.value() <= p[2].value() <= b.hi.z.value()
            }
            &&& range.vert_count > 0 ==> {
                &&& exists|k: int|
                    start <= k < end && (#[trigger] scene.mesh_vertices@[k]).position@[0] == b.lo.x
                &&& exists|k: int|
                    start <= k < end && (#[trigger] scene.mesh_vertices@[k]).position@[1] == b.lo.y
                &&& exists|k: int|
                    start <= k < end && (#[trigger] scene.mesh_vertices@[k]).position@[2] == b.lo.z
                &&& exists|k: int|
                    start <= k < end && (#[trigger] scene.mesh_vertices@[k]).position@[0] == b.hi.x
                &&& exists|k: int|
                    start <= k < end && (#[trigger] scene.mesh_vertices@[k]).position@[1] == b.hi.y
                &&& exists|k: int|
                    start <= k < end && (#[trigger] scene.mesh_vertices@[k]).position@[2] == b.hi.z
            }
        }),
{
    let range = scene.mesh_ranges@[m];
    let start = range.vert_start as int;
    let vertices = scene.mesh_vertices@;
    let points = mesh_points(vertices, range);
    let b = scene_boxes(scene)[m];
    assert(b == mesh_box(vertices, range));
    if range.vert_count > 0 {
        assert forall|k: int| 0 <= k < points.len() implies numeric(#[trigger] points[k]) by {
            assert(!vertices[start + k].position@[0].nan());
        }
        law_box_holds_points(points);
        law_box_is_tight(points);
        assert(b == box_of(points));
        if start <= v < start + range.vert_count {
            assert(holds(b, points[v - start]));
        }
        let a1 = choose|k: int| 0 <= k < points.len() && (#[trigger] points[k]).x == b.lo.x;
        let a2 = choose|k: int| 0 <= k < points.len() && (#[trigger] points[k]).y == b.lo.y;
        let a3 = choose|k: int| 0 <= k < points.len() && (#[trigger] points[k]).z == b.lo.z;
        let a4 = choose|k: int| 0 <= k < points.len() && (#[trigger] points[k]).x == b.hi.x;
        let a5 = choose|k: int| 0 <= k < points.len() && (#[trigger] points[k]).y == b.hi.y;
        let a6 = choose|k: int| 0 <= k < points.len() && (#[trigger] points[k]).z == b.hi.z;
        assert(vertices[start + a1].position@[0] == b.lo.x);
        assert(vertices[start + a2].position@[1] == b.lo.y);
        assert(vertices[start + a3].position@[2] == b.lo.z);
        assert(vertices[start + a4].position@[0] == b.hi.x);
        assert(vertices[start + a5].position@[1] == b.hi.y);
        assert(vertices[start + a6].position@[2] == b.hi.z);
    }
}

/// The eight corners take either bound along each axis, and every choice of bounds is a
/// corner.
pub proof fn law_corners_take_every_choice(b: Aabb, high_x: bool, high_y: bool, high_z: bool) -> (
i: int)
    ensures
        0 <= i < 8,
        corner(b, i).x == if high_x {
            b.hi.x
        } else {
            b.lo.x
        },
        corner(b, i).y == if high_y {
            b.hi.y
        } else {
            b.lo.y
        },
        corner(b, i).z == if high_z {
            b.hi.z
        } else {
            b.lo.z
        },
{
    (if high_x {
        1int
    } else {
        0int
    }) + (if high_y {
        2int
    } else {
        0int
    }) + (if high_z {
        4int
    } else {
        0int
    })
}

/// The bound `a` after `v` was taken in from below: `a` where it is the smaller number, `v`
/// otherwise, even where either is a NaN.
pub open spec fn lowered(a: F32, v: F32, result: F32) -> bool {
    (a.less(v) ==> result == a) && (!a.less(v) ==> result == v)
}

/// A box starts out between the infinities and takes in one point after the other, each of
/// its six bounds by itself.
pub proof fn law_boxes_take_in_points(points: Seq<Vec3>, p: Vec3)
    ensures
        ({
            let empty = box_of(Seq::<Vec3>::empty());
            let before = box_of(points);
            let after = box_of(points.push(p));
            &&& empty.lo.x.bits == 0x7f80_0000 && empty.lo.y.bits == 0x7f80_0000
                && empty.lo.z.bits == 0x7f80_0000
            &&& empty.hi.x.bits == 0xff80_0000 && empty.hi.y.bits == 0xff80_0000
                && empty.hi.z.bits == 0xff80_0000
            &&& lowered(before.lo.x, p.x, after.lo.x)
            &&& lowered(before.lo.y, p.y, after.lo.y)
            &&& lowered(before.lo.z, p.z, after.lo.z)
            &&& p.x.less(before.hi.x) ==> after.hi.x == before.hi.x
            &&& !p.x.less(before.hi.x) ==> after.hi.x == p.x
            &&& p.y.less(before.hi.y) ==> after.hi.y == before.hi.y
            &&& !p.y.less(before.hi.y) ==> after.hi.y == p.y
            &&& p.z.less(before.hi.z) ==> after.hi.z == before.hi.z
            &&& !p.z.less(before.hi.z) ==> after.hi.z == p.z
        }),
{
    assert(points.push(p).drop_last() =~= points);
}

/// The box of a mesh takes in the positions of the vertices of the mesh's own range, in order.
pub proof fn law_box_takes_in_the_range(vertices: Seq<RtVertex>, range: RtMeshRange, k: int)
    requires
        range.vert_count > 0,
        0 <= k < range.vert_count,
    ensures
        mesh_box(vertices, range) == box_of(mesh_points(vertices, range)),
        mesh_points(vertices, range).len() == range.vert_count,
        spells(
            vertices[range.vert_start + k].position,
            mesh_points(vertices, range)[k],
        ),
{
}

} // verus!
