//! What the gathered scene holds, field by field.

use crate::bake::BakedObject;
use crate::float::{lemma_sign_of_bits, F32};
use crate::gather::{
    face_emitter, gatherable, gathered, gathered_transforms, mesh_table, object_emitters,
    object_textures, placeable, rt_light, with_object, SceneModel,
};
use crate::laws::gather::{
    handles_identify_meshes, holds_mesh, in_limits, law_nodes_are_placed_with_their_own_mesh,
    law_placements_refer_to_the_mesh, mesh_of,
};
use crate::records::RtMaterial;
use crate::scene::{
    CollectedLight, LightType, Mat4, Object3d, ObjectData3d, SceneNode3d, TextureHandle, Vec3,
};
use vstd::prelude::*;

verus! {

/// How many copies the traced nodes draw: one of a skinned object, as many as it has
/// instances of another.
pub open spec fn copy_total(nodes: Seq<SceneNode3d>, render_layers: u32) -> nat
    decreases nodes.len(),
{
    if nodes.len() == 0 {
        0
    } else {
        let before = copy_total(nodes.drop_last(), render_layers);
        if nodes.last().traced(render_layers) {
            before + if nodes.last().object->0.skinned() {
                1nat
            } else {
                nodes.last().object->0.instances.count as nat
            }
        } else {
            before
        }
    }
}

/// `a` is the beginning of `b`.
pub open spec fn begins<T>(b: Seq<T>, a: Seq<T>) -> bool {
    &&& a.len() <= b.len()
    &&& forall|j: int| 0 <= j < a.len() ==> #[trigger] b[j] == a[j]
}

/// Every array of `a` is the beginning of that of `b`.
pub open spec fn model_begins(b: SceneModel, a: SceneModel) -> bool {
    &&& begins(b.vertices, a.vertices)
    &&& begins(b.triangles, a.triangles)
    &&& begins(b.ranges, a.ranges)
    &&& begins(b.instances, a.instances)
    &&& begins(b.materials, a.materials)
    &&& begins(b.emitters, a.emitters)
    &&& begins(b.textures, a.textures)
}

proof fn lemma_object_extends(
    before: SceneModel,
    object: Object3d,
    baked: BakedObject,
    shared: Option<u32>,
)
    ensures
        model_begins(with_object(before, object, baked, shared), before),
{
}

proof fn lemma_scene_grows(
    nodes: Seq<SceneNode3d>,
    baked: Seq<BakedObject>,
    render_layers: u32,
    i: int,
)
    requires
        nodes.len() == baked.len(),
        0 <= i <= nodes.len(),
    ensures
        model_begins(
            gathered(nodes, baked, render_layers),
            gathered(nodes.take(i), baked.take(i), render_layers),
        ),
    decreases nodes.len(),
{
    if i == nodes.len() {
        assert(nodes.take(i) =~= nodes);
        assert(baked.take(i) =~= baked);
    } else {
        let rest = nodes.drop_last();
        lemma_scene_grows(rest, baked.drop_last(), render_layers, i);
        assert(rest.take(i) =~= nodes.take(i));
        assert(baked.drop_last().take(i) =~= baked.take(i));
        if nodes.last().traced(render_layers) {
            let object = nodes.last().object->0;
            lemma_object_extends(
                gathered(rest, baked.drop_last(), render_layers),
                object,
                baked.last(),
                mesh_table(rest, render_layers).shared(object),
            );
        }
    }
}

/// The scene up to and with node `i` begins the whole scene.
proof fn lemma_node_in_scene(
    nodes: Seq<SceneNode3d>,
    baked: Seq<BakedObject>,
    render_layers: u32,
    i: int,
)
    requires
        nodes.len() == baked.len(),
        0 <= i < nodes.len(),
        nodes[i].traced(render_layers),
    ensures
        model_begins(
            gathered(nodes, baked, render_layers),
            with_object(
                gathered(nodes.take(i), baked.take(i), render_layers),
                nodes[i].object->0,
                baked[i],
                mesh_table(nodes.take(i), render_layers).shared(nodes[i].object->0),
            ),
        ),
{
    lemma_scene_grows(nodes, baked, render_layers, i + 1);
    assert(nodes.take(i + 1).drop_last() =~= nodes.take(i));
    assert(baked.take(i + 1).drop_last() =~= baked.take(i));
    assert(nodes.take(i + 1).last() == nodes[i]);
    assert(baked.take(i + 1).last() == baked[i]);
}

/// There are as many instances, and as many materials, as copies.
pub proof fn law_every_copy_is_an_instance(
    nodes: Seq<SceneNode3d>,
    baked: Seq<BakedObject>,
    render_layers: u32,
)
    ensures
        gathered(nodes, baked, render_layers).instances.len() == copy_total(nodes, render_layers),
        gathered(nodes, baked, render_layers).materials.len() == copy_total(nodes, render_layers),
    decreases nodes.len(),
{
    if nodes.len() > 0 {
        law_every_copy_is_an_instance(nodes.drop_last(), baked.drop_last(), render_layers);
    }
}

/// The texture of layer `layer` is `map`; a map that is absent has layer `-1`.
pub open spec fn layer_shows(
    textures: Seq<TextureHandle>,
    layer: i32,
    map: Option<TextureHandle>,
) -> bool {
    match map {
        Some(texture) => 0 <= layer < textures.len() && textures[layer as int] == texture,
        None => layer == -1,
    }
}

/// The instance of copy `k` of node `i` refers to a material that has the color of that
/// very copy, and every other property of the node's object.
#[verifier::rlimit(60)]
#[verifier::spinoff_prover]
pub proof fn law_material_of_a_copy(
    nodes: Seq<SceneNode3d>,
    baked: Seq<BakedObject>,
    render_layers: u32,
    i: int,
    k: int,
)
    requires
        nodes.len() == baked.len(),
        0 <= i < nodes.len(),
        nodes[i].traced(render_layers),
        0 <= k,
        if nodes[i].object->0.skinned() {
            k == 0
        } else {
            k < nodes[i].object->0.instances.count
        },
        copy_total(nodes.take(i), render_layers) + k <= u32::MAX,
        gathered(nodes, baked, render_layers).textures.len() <= i32::MAX,
    ensures
        ({
            let scene = gathered(nodes, baked, render_layers);
            let copy = copy_total(nodes.take(i), render_layers) + k;
            let m = scene.materials[scene.instances[copy].material_id as int];
            let data = nodes[i].object->0.data;
            &&& copy < scene.instances.len()
            &&& scene.instances[copy].material_id == copy
            &&& m.base_color == baked[i].instances@[k].base_color
            &&& m.emissive@ == seq![
                data.emissive.r,
                data.emissive.g,
                data.emissive.b,
                F32 { bits: 0x3f80_0000 },
            ]
            &&& m.metallic == data.metallic
            &&& m.roughness == data.roughness
            &&& m.ior == data.ior
            &&& m.transmission == data.transmission
            &&& m.specular_tint@ == seq![
                data.specular_tint.r,
                data.specular_tint.g,
                data.specular_tint.b,
            ]
            &&& m.bsdf_type == data.bsdf_tag
            &&& m.subsurface == data.subsurface
            &&& m.subsurface_radius == data.subsurface_radius
            &&& m.reflectance == data.reflectance
            &&& m.light_layers == data.light_layers
            &&& m.attenuation_color@ == seq![
                data.attenuation_color.r,
                data.attenuation_color.g,
                data.attenuation_color.b,
            ]
            &&& m.clearcoat == data.clearcoat
            &&& m.clearcoat_roughness == data.clearcoat_roughness
            &&& m.casts_shadows == (if data.casts_shadows {
                1u32
            } else {
                0u32
            })
            &&& layer_shows(scene.textures, m.albedo_tex, Some(data.texture))
            &&& layer_shows(scene.textures, m.normal_tex, data.normal_map)
            &&& layer_shows(scene.textures, m.mr_tex, data.metallic_roughness_map)
            &&& layer_shows(scene.textures, m.emissive_tex, data.emissive_map)
        }),
{
    let head = gathered(nodes.take(i), baked.take(i), render_layers);
    let object = nodes[i].object->0;
    let data = object.data;
    let shared = mesh_table(nodes.take(i), render_layers).shared(object);
    let after = with_object(head, object, baked[i], shared);
    let scene = gathered(nodes, baked, render_layers);
    lemma_node_in_scene(nodes, baked, render_layers, i);
    law_every_copy_is_an_instance(nodes.take(i), baked.take(i), render_layers);
    let copy = copy_total(nodes.take(i), render_layers) + k;
    assert(scene.instances[copy] == after.instances[copy]);
    assert(scene.materials[copy] == after.materials[copy]);
    let m = after.materials[copy];
    let start = head.textures.len() as int;
    let all = object_textures(data);
    assert(after.textures =~= head.textures + all);
    assert(after.textures.len() <= scene.textures.len());
    assert forall|t: int| 0 <= t < all.len() implies scene.textures[start + t]
        == #[trigger] all[t] by {
        assert(scene.textures[start + t] == after.textures[start + t]);
    }
    lemma_object_textures(data);
    assert(m.emissive@ =~= seq![
        data.emissive.r,
        data.emissive.g,
        data.emissive.b,
        F32 { bits: 0x3f80_0000 },
    ]);
    assert(m.specular_tint@ =~= seq![
        data.specular_tint.r,
        data.specular_tint.g,
        data.specular_tint.b,
    ]);
    assert(m.attenuation_color@ =~= seq![
        data.attenuation_color.r,
        data.attenuation_color.g,
        data.attenuation_color.b,
    ]);
}

proof fn lemma_object_textures(data: ObjectData3d)
    ensures
        ({
            let all = object_textures(data);
            let a = if data.normal_map is Some {
                1int
            } else {
                0int
            };
            let b = if data.metallic_roughness_map is Some {
                1int
            } else {
                0int
            };
            let c = if data.emissive_map is Some {
                1int
            } else {
                0int
            };
            &&& all.len() == 1 + a + b + c
            &&& all[0] == data.texture
            &&& data.normal_map matches Some(t) ==> all[1] == t
            &&& data.metallic_roughness_map matches Some(t) ==> all[1 + a] == t
            &&& data.emissive_map matches Some(t) ==> all[1 + a + b] == t
        }),
{
}

/// Volume absorption reaches the kernel where its distance is a positive number below
/// infinity, and is switched off by `-1` elsewhere.
pub proof fn law_absorption_of_a_copy(
    nodes: Seq<SceneNode3d>,
    baked: Seq<BakedObject>,
    render_layers: u32,
    i: int,
    k: int,
)
    requires
        nodes.len() == baked.len(),
        0 <= i < nodes.len(),
        nodes[i].traced(render_layers),
        0 <= k,
        if nodes[i].object->0.skinned() {
            k == 0
        } else {
            k < nodes[i].object->0.instances.count
        },
    ensures
        ({
            let scene = gathered(nodes, baked, render_layers);
            let m = scene.materials[copy_total(nodes.take(i), render_layers) + k];
            let distance = nodes[i].object->0.data.attenuation_distance;
            let bits = distance.bits;
            &&& 0 < bits < 0x7f80_0000 ==> m.attenuation_distance == distance
            &&& !(0 < bits < 0x7f80_0000) ==> m.attenuation_distance.bits == 0xbf80_0000
        }),
{
    lemma_node_in_scene(nodes, baked, render_layers, i);
    law_every_copy_is_an_instance(nodes.take(i), baked.take(i), render_layers);
    let copy = copy_total(nodes.take(i), render_layers) + k;
    let head = gathered(nodes.take(i), baked.take(i), render_layers);
    let object = nodes[i].object->0;
    let after = with_object(
        head,
        object,
        baked[i],
        mesh_table(nodes.take(i), render_layers).shared(object),
    );
    assert(gathered(nodes, baked, render_layers).materials[copy] == after.materials[copy]);
    lemma_sign_of_bits(object.data.attenuation_distance);
}

/// The matrix is the identity.
pub open spec fn is_identity(m: Mat4) -> bool {
    forall|c: int, r: int|
        #![trigger m@[c]@[r]]
        0 <= c < 4 && 0 <= r < 4 ==> m@[c]@[r].bits == (if c == r {
            0x3f80_0000u32
        } else {
            0u32
        })
}

/// Copy `k` of node `i` is placed by its own matrices; a skinned object, which lies in world
/// space, by identities.
pub proof fn law_placement_of_a_copy(
    nodes: Seq<SceneNode3d>,
    baked: Seq<BakedObject>,
    render_layers: u32,
    i: int,
    k: int,
)
    requires
        nodes.len() == baked.len(),
        0 <= i < nodes.len(),
        nodes[i].traced(render_layers),
        0 <= k,
        if nodes[i].object->0.skinned() {
            k == 0
        } else {
            k < nodes[i].object->0.instances.count
        },
    ensures
        ({
            let scene = gathered(nodes, baked, render_layers);
            let instance = scene.instances[copy_total(nodes.take(i), render_layers) + k];
            &&& if nodes[i].object->0.skinned() {
                is_identity(instance.object_to_world) && is_identity(instance.world_to_object)
            } else {
                &&& instance.object_to_world == baked[i].instances@[k].object_to_world
                &&& instance.world_to_object == baked[i].instances@[k].world_to_object
            }
            &&& instance.node_offset == 0
            &&& instance.tri_offset == 0
        }),
{
    lemma_node_in_scene(nodes, baked, render_layers, i);
    law_every_copy_is_an_instance(nodes.take(i), baked.take(i), render_layers);
    let copy = copy_total(nodes.take(i), render_layers) + k;
    let head = gathered(nodes.take(i), baked.take(i), render_layers);
    let object = nodes[i].object->0;
    let after = with_object(
        head,
        object,
        baked[i],
        mesh_table(nodes.take(i), render_layers).shared(object),
    );
    assert(gathered(nodes, baked, render_layers).instances[copy] == after.instances[copy]);
}

/// The transforms that are gathered alone are, copy by copy, the given matrices; the
/// identity for a skinned object.
pub proof fn law_transform_of_a_copy(
    nodes: Seq<SceneNode3d>,
    placed: Seq<Vec<Mat4>>,
    render_layers: u32,
    i: int,
    k: int,
)
    requires
        placeable(nodes, placed, render_layers),
        0 <= i < nodes.len(),
        nodes[i].traced(render_layers),
        0 <= k,
        if nodes[i].object->0.skinned() {
            k == 0
        } else {
            k < nodes[i].object->0.instances.count
        },
    ensures
        ({
            let transforms = gathered_transforms(nodes, placed, render_layers);
            let copy = copy_total(nodes.take(i), render_layers) + k;
            &&& transforms.len() == copy_total(nodes, render_layers)
            &&& copy < transforms.len()
            &&& if nodes[i].object->0.skinned() {
                is_identity(transforms[copy])
            } else {
                transforms[copy] == placed[i]@[k]
            }
        }),
    decreases nodes.len(),
{
    lemma_transform_count(nodes, placed, render_layers);
    let rest = nodes.drop_last();
    let rest_placed = placed.drop_last();
    lemma_placeable_prefix(nodes, placed, render_layers);
    lemma_transform_count(rest, rest_placed, render_layers);
    let before = gathered_transforms(rest, rest_placed, render_layers);
    let transforms = gathered_transforms(nodes, placed, render_layers);
    if i == nodes.len() - 1 {
        assert(nodes.take(i) =~= rest);
    } else {
        law_transform_of_a_copy(rest, rest_placed, render_layers, i, k);
        assert(rest.take(i) =~= nodes.take(i));
        let copy = copy_total(nodes.take(i), render_layers) + k;
        assert(transforms[copy] == before[copy]);
    }
}

proof fn lemma_placeable_prefix(
    nodes: Seq<SceneNode3d>,
    placed: Seq<Vec<Mat4>>,
    render_layers: u32,
)
    requires
        nodes.len() > 0,
        placeable(nodes, placed, render_layers),
    ensures
        placeable(nodes.drop_last(), placed.drop_last(), render_layers),
{
    let rest = nodes.drop_last();
    assert forall|i: int|
        0 <= i < rest.len() && (#[trigger] rest[i]).traced(render_layers)
            && !rest[i].object->0.skinned() implies placed.drop_last()[i]@.len()
        == rest[i].object->0.instances.count by {
        assert(rest[i] == nodes[i]);
    }
}

proof fn lemma_transform_count(
    nodes: Seq<SceneNode3d>,
    placed: Seq<Vec<Mat4>>,
    render_layers: u32,
)
    requires
        placeable(nodes, placed, render_layers),
    ensures
        gathered_transforms(nodes, placed, render_layers).len() == copy_total(
            nodes,
            render_layers,
        ),
    decreases nodes.len(),
{
    if nodes.len() > 0 {
        lemma_placeable_prefix(nodes, placed, render_layers);
        lemma_transform_count(nodes.drop_last(), placed.drop_last(), render_layers);
        assert(nodes[nodes.len() - 1] == nodes.last());
    }
}

/// The three components are those of the vector.
pub open spec fn spells(a: [F32; 3], v: Vec3) -> bool {
    a@[0] == v.x && a@[1] == v.y && a@[2] == v.z
}

/// Where vertex `v` of the object is drawn: where skinning put it, else where morphing put
/// it, else where the mesh has it.
pub open spec fn drawn_at(object: Object3d, baked: BakedObject, v: int, p: Vec3) -> bool {
    &&& baked.skinned matches Some(vertices) ==> p == vertices@[v].position
    &&& baked.skinned is None ==> {
        &&& baked.morphed matches Some(morphed) ==> p == morphed.positions@[v]
        &&& baked.morphed is None ==> p == object.mesh.coords->0@[v]
    }
}

/// Every copy of a node refers to a mesh whose vertices are those of the node's object, as
/// skinning and morphing left them, with its texture coordinates, and whose triangles are
/// the object's faces.
#[verifier::rlimit(60)]
#[verifier::spinoff_prover]
pub proof fn law_mesh_of_a_copy(
    nodes: Seq<SceneNode3d>,
    baked: Seq<BakedObject>,
    render_layers: u32,
    i: int,
    k: int,
    v: int,
    t: int,
)
    requires
        gatherable(nodes, baked, render_layers),
        handles_identify_meshes(nodes, render_layers),
        in_limits(gathered(nodes, baked, render_layers)),
        0 <= i < nodes.len(),
        nodes[i].traced(render_layers),
        0 <= k,
        if nodes[i].object->0.skinned() {
            k == 0
        } else {
            k < nodes[i].object->0.instances.count
        },
        0 <= v < nodes[i].object->0.mesh.coords->0@.len(),
        0 <= t < nodes[i].object->0.mesh.faces->0@.len(),
        nodes[i].object->0.mesh.faces->0@[t][0] < nodes[i].object->0.mesh.coords->0@.len(),
        nodes[i].object->0.mesh.faces->0@[t][1] < nodes[i].object->0.mesh.coords->0@.len(),
        nodes[i].object->0.mesh.faces->0@[t][2] < nodes[i].object->0.mesh.coords->0@.len(),
    ensures
        ({
            let scene = gathered(nodes, baked, render_layers);
            let object = nodes[i].object->0;
            let mesh = object.mesh;
            let instance = scene.instances[copy_total(nodes.take(i), render_layers) + k];
            let range = scene.ranges[instance.mesh_id as int];
            let vertex = scene.vertices[range.vert_start + v];
            let triangle = scene.triangles[range.tri_start + t];
            let face = mesh.faces->0@[t];
            &&& instance.mesh_id < scene.ranges.len()
            &&& range.vert_count == mesh.coords->0@.len()
            &&& range.tri_count == mesh.faces->0@.len()
            &&& forall|p: Vec3|
                #[trigger] drawn_at(object, baked[i], v, p) ==> spells(vertex.position, p)
            &&& baked[i].skinned matches Some(vertices) ==> spells(
                vertex.normal,
                vertices@[v].normal,
            )
            &&& baked[i].skinned is None ==> {
                &&& baked[i].morphed matches Some(morphed) ==> (morphed.normals matches Some(n)
                    ==> spells(vertex.normal, n@[v]))
                &&& (baked[i].morphed is None || baked[i].morphed->0.normals is None) ==> {
                    &&& mesh.normals matches Some(n) ==> (v < n@.len() ==> spells(
                        vertex.normal,
                        n@[v],
                    ))
                    &&& (mesh.normals is None || v >= mesh.normals->0@.len()) ==> {
                        &&& vertex.normal@[0].bits == 0
                        &&& vertex.normal@[1].bits == 0x3f80_0000
                        &&& vertex.normal@[2].bits == 0
                    }
                }
            }
            &&& mesh.uvs matches Some(uvs) ==> (v < uvs@.len() ==> vertex.u == uvs@[v].x
                && vertex.v == uvs@[v].y)
            &&& (mesh.uvs is None || v >= mesh.uvs->0@.len()) ==> vertex.u.bits == 0
                && vertex.v.bits == 0
            &&& triangle.v0 == range.vert_start + face[0]
            &&& triangle.v1 == range.vert_start + face[1]
            &&& triangle.v2 == range.vert_start + face[2]
            &&& triangle.material_id == 0
        }),
{
    let scene = gathered(nodes, baked, render_layers);
    let object = nodes[i].object->0;
    law_every_copy_is_an_instance(nodes.take(i), baked.take(i), render_layers);
    law_placements_refer_to_the_mesh(nodes, baked, render_layers, i, k);
    law_nodes_are_placed_with_their_own_mesh(nodes, baked, render_layers, i);
    let id = mesh_of(nodes, render_layers, i);
    let range = scene.ranges[id as int];
    assert(holds_mesh(scene, object, baked[i], id));
    assert(scene.vertices[range.vert_start + v].position@.len() == 3);
    assert(scene.triangles[range.tri_start + t].material_id == 0);
    assert(baked[i].fits(object));
}

/// How many emissive triangles the nodes draw.
pub open spec fn glow_total(
    nodes: Seq<SceneNode3d>,
    baked: Seq<BakedObject>,
    render_layers: u32,
) -> nat
    decreases nodes.len(),
{
    if nodes.len() == 0 {
        0
    } else {
        let before = glow_total(nodes.drop_last(), baked.drop_last(), render_layers);
        let object = nodes.last().object->0;
        if nodes.last().traced(render_layers) && (F32 { bits: 0x38d1_b717 }).less(
            baked.last().emissive_sum,
        ) {
            before + (if object.skinned() {
                1nat
            } else {
                object.instances.count as nat
            }) * object.mesh.faces->0@.len()
        } else {
            before
        }
    }
}

proof fn lemma_emitters_of_object(object: Object3d, baked: BakedObject, n: nat, k: int, j: int)
    requires
        0 <= k < n,
        0 <= j < object.faces().len(),
    ensures
        ({
            let e = object_emitters(object, baked, n);
            let at = k * object.faces().len() + j;
            &&& 0 <= at < e.len()
            &&& e.len() == n * object.faces().len()
            &&& e[at] == face_emitter(object, baked, k, j)
        }),
    decreases n,
{
    let f = object.faces().len();
    lemma_emitter_count(object, baked, n);
    lemma_emitter_count(object, baked, (n - 1) as nat);
    assert(0 <= k * f + j < n * f) by (nonlinear_arith)
        requires
            0 <= k < n,
            0 <= j < f,
    ;
    if k < n - 1 {
        lemma_emitters_of_object(object, baked, (n - 1) as nat, k, j);
    }
}

proof fn lemma_emitter_count(object: Object3d, baked: BakedObject, n: nat)
    ensures
        object_emitters(object, baked, n).len() == n * object.faces().len(),
    decreases n,
{
    let f = object.faces().len();
    if n > 0 {
        lemma_emitter_count(object, baked, (n - 1) as nat);
        assert((n - 1) * f + f == n * f) by (nonlinear_arith);
    } else {
        assert(0 * f == 0) by (nonlinear_arith);
    }
}

/// There are as many emitters as emissive triangles.
pub proof fn law_every_emissive_triangle_is_an_emitter(
    nodes: Seq<SceneNode3d>,
    baked: Seq<BakedObject>,
    render_layers: u32,
)
    ensures
        gathered(nodes, baked, render_layers).emitters.len() == glow_total(
            nodes,
            baked,
            render_layers,
        ),
    decreases nodes.len(),
{
    if nodes.len() > 0 {
        law_every_emissive_triangle_is_an_emitter(
            nodes.drop_last(),
            baked.drop_last(),
            render_layers,
        );
        let object = nodes.last().object->0;
        lemma_emitter_count(object, baked.last(), object.placements());
    }
}

/// Face `j` of copy `k` of an emissive node is an emitter at the world positions of its own
/// three vertices, with the emission of the object.
#[verifier::rlimit(60)]
#[verifier::spinoff_prover]
pub proof fn law_emitter_of_a_face(
    nodes: Seq<SceneNode3d>,
    baked: Seq<BakedObject>,
    render_layers: u32,
    i: int,
    k: int,
    j: int,
)
    requires
        nodes.len() == baked.len(),
        0 <= i < nodes.len(),
        nodes[i].traced(render_layers),
        (F32 { bits: 0x38d1_b717 }).less(baked[i].emissive_sum),
        0 <= k,
        if nodes[i].object->0.skinned() {
            k == 0
        } else {
            k < nodes[i].object->0.instances.count
        },
        0 <= j < nodes[i].object->0.mesh.faces->0@.len(),
    ensures
        ({
            let scene = gathered(nodes, baked, render_layers);
            let object = nodes[i].object->0;
            let face = object.mesh.faces->0@[j];
            let at = glow_total(nodes.take(i), baked.take(i), render_layers) + k
                * object.mesh.faces->0@.len() + j;
            let e = scene.emitters[at];
            let color = object.data.emissive;
            &&& 0 <= at < scene.emitters.len()
            &&& match baked[i].skinned {
                Some(vertices) => {
                    &&& spells(e.p0, vertices@[face[0] as int].position)
                    &&& spells(e.p1, vertices@[face[1] as int].position)
                    &&& spells(e.p2, vertices@[face[2] as int].position)
                },
                None => {
                    let world = baked[i].instances@[k].world_positions@;
                    &&& spells(e.p0, world[face[0] as int])
                    &&& spells(e.p1, world[face[1] as int])
                    &&& spells(e.p2, world[face[2] as int])
                },
            }
            &&& e.emission@[0] == color.r
            &&& e.emission@[1] == color.g
            &&& e.emission@[2] == color.b
            &&& e._pad0.bits == 0 && e._pad1.bits == 0 && e._pad2.bits == 0 && e._pad3.bits == 0
        }),
{
    lemma_node_in_scene(nodes, baked, render_layers, i);
    law_every_emissive_triangle_is_an_emitter(nodes.take(i), baked.take(i), render_layers);
    let head = gathered(nodes.take(i), baked.take(i), render_layers);
    let object = nodes[i].object->0;
    let after = with_object(
        head,
        object,
        baked[i],
        mesh_table(nodes.take(i), render_layers).shared(object),
    );
    lemma_emitters_of_object(object, baked[i], object.placements(), k, j);
    let at = head.emitters.len() + k * object.faces().len() + j;
    assert(after.emitters[at] == object_emitters(object, baked[i], object.placements())[k
        * object.faces().len() + j]);
    assert(gathered(nodes, baked, render_layers).emitters[at] == after.emitters[at]);
}

/// Light `i` of a gathered scene is light `i` of the collection.
pub proof fn law_record_of_a_light(light: CollectedLight)
    ensures
        ({
            let r = rt_light(light);
            &&& spells(r.position, light.world_position)
            &&& spells(r.direction, light.world_direction)
            &&& spells(r.color, light.color)
            &&& r.intensity == light.intensity
            &&& r.radius == light.radius
            &&& r.layers == light.layers
            &&& r.casts_shadows == (if light.casts_shadows {
                1u32
            } else {
                0u32
            })
            &&& r._pad0.bits == 0 && r._pad1.bits == 0 && r._pad2.bits == 0
            &&& match light.light_type {
                LightType::Point { attenuation_radius } => {
                    &&& r.light_type == 0
                    &&& r.attenuation_radius == attenuation_radius
                    &&& r.inner_cone_cos.bits == 0x3f80_0000
                    &&& r.outer_cone_cos.bits == 0
                },
                LightType::Directional => {
                    &&& r.light_type == 1
                    &&& r.attenuation_radius.bits == 0
                    &&& r.inner_cone_cos.bits == 0x3f80_0000
                    &&& r.outer_cone_cos.bits == 0
                },
                LightType::Spot { inner_cone_cos, outer_cone_cos, attenuation_radius } => {
                    &&& r.light_type == 2
                    &&& r.attenuation_radius == attenuation_radius
                    &&& r.inner_cone_cos == inner_cone_cos
                    &&& r.outer_cone_cos == outer_cone_cos
                },
            }
        }),
{
}

/// Whether a node is traced depends on the layers that its object shares with the mask, and
/// on each layer by itself: a node that a mask shows is shown by every larger mask, and a
/// layer shows it exactly where its object belongs to it.
pub proof fn law_layers_show_nodes(node: SceneNode3d, mask: u32, other: u32, layer: u32)
    requires
        layer < 32,
        node.traced(u32::MAX),
    ensures
        node.traced(mask | other) <==> node.traced(mask) || node.traced(other),
        node.traced(1u32 << layer) <==> (node.object->0.data.render_layers >> layer) % 2 == 1,
        !node.traced(0),
{
    let own = node.object->0.data.render_layers;
    assert(own & (mask | other) != 0 <==> own & mask != 0 || own & other != 0) by (bit_vector);
    assert(own & (1u32 << layer) != 0 <==> (own >> layer) % 2 == 1) by (bit_vector)
        requires
            layer < 32,
    ;
    assert(own & 0 == 0) by (bit_vector);
    assert(own & mask != 0 ==> own & 0xffff_ffff != 0) by (bit_vector);
    assert(own & other != 0 ==> own & 0xffff_ffff != 0) by (bit_vector);
}

/// A node is traced under some mask exactly where it has an object whose surface is drawn,
/// that belongs to a layer, has vertices and faces in main memory, and has instances.
pub proof fn law_what_is_traced(node: SceneNode3d)
    ensures
        node.traced(u32::MAX) <==> {
            &&& node.object is Some
            &&& node.object->0.data.surface_rendering_active
            &&& node.object->0.data.render_layers != 0
            &&& node.object->0.mesh.coords is Some
            &&& node.object->0.mesh.coords->0@.len() > 0
            &&& node.object->0.mesh.faces is Some
            &&& node.object->0.mesh.faces->0@.len() > 0
            &&& node.object->0.instances.count > 0
        },
{
    let own = node.object->0.data.render_layers;
    assert(own & 0xffff_ffff == own) by (bit_vector);
}

/// An object is skinned exactly where it and its mesh call for it and palette, joints and
/// weights are there.
pub proof fn law_what_is_skinned(object: Object3d)
    ensures
        object.skinned() <==> {
            &&& object.data.has_skin
            &&& object.mesh.has_skin_vertices
            &&& object.data.skin is Some
            &&& object.data.skin->0.palette@.len() > 0
            &&& object.mesh.skin_joints is Some
            &&& object.mesh.skin_weights is Some
        },
{
}

/// How many textures the traced nodes bring: one each, and one more for every map.
pub open spec fn texture_total(nodes: Seq<SceneNode3d>, render_layers: u32) -> nat
    decreases nodes.len(),
{
    if nodes.len() == 0 {
        0
    } else {
        let before = texture_total(nodes.drop_last(), render_layers);
        let data = nodes.last().object->0.data;
        if nodes.last().traced(render_layers) {
            before + 1 + (if data.normal_map is Some {
                1nat
            } else {
                0nat
            }) + (if data.metallic_roughness_map is Some {
                1nat
            } else {
                0nat
            }) + (if data.emissive_map is Some {
                1nat
            } else {
                0nat
            })
        } else {
            before
        }
    }
}

/// A gathered scene has no other textures than those that its objects bring.
pub proof fn law_every_texture_is_of_an_object(
    nodes: Seq<SceneNode3d>,
    baked: Seq<BakedObject>,
    render_layers: u32,
)
    ensures
        gathered(nodes, baked, render_layers).textures.len() == texture_total(
            nodes,
            render_layers,
        ),
    decreases nodes.len(),
{
    if nodes.len() > 0 {
        law_every_texture_is_of_an_object(nodes.drop_last(), baked.drop_last(), render_layers);
        lemma_object_textures(nodes.last().object->0.data);
    }
}

/// The plain material is white, half rough and opaque, emits nothing, casts shadows, is lit by
/// every layer, and has no textures.
pub proof fn law_plain_material()
    ensures
        ({
            let m = RtMaterial::plain();
            let white = 0x3f80_0000u32;
            &&& forall|c: int| 0 <= c < 4 ==> (#[trigger] m.base_color@[c]).bits == white
            &&& forall|c: int| 0 <= c < 3 ==> (#[trigger] m.emissive@[c]).bits == 0
            &&& m.emissive@[3].bits == white
            &&& m.metallic.bits == 0
            &&& m.roughness.bits == 0x3f00_0000
            &&& m.ior.bits == 0x3fc0_0000
            &&& m.transmission.bits == 0
            &&& forall|c: int| 0 <= c < 3 ==> (#[trigger] m.specular_tint@[c]).bits == white
            &&& m.bsdf_type == 0
            &&& m.subsurface.bits == 0
            &&& m.subsurface_radius.bits == 0
            &&& m.reflectance.bits == 0x3f00_0000
            &&& m.light_layers == u32::MAX
            &&& forall|c: int| 0 <= c < 3 ==> (#[trigger] m.attenuation_color@[c]).bits == white
            &&& m.attenuation_distance.bits == 0xbf80_0000
            &&& m.clearcoat.bits == 0
            &&& m.clearcoat_roughness.bits == 0
            &&& m.casts_shadows == 1
            &&& m._pad0.bits == 0
            &&& m.albedo_tex == -1 && m.normal_tex == -1 && m.mr_tex == -1 && m.emissive_tex == -1
        }),
{
}

} // verus!
