//! Where the fields of the records lie in memory.

use crate::fnv::{le_bytes, le_bytes_of};
use crate::laws::gpu::{lemma_bytes_len, lemma_records_len};
use crate::records::{RtEmitter, RtInstance, RtLight, RtMaterial, RtMeshDesc, RtTriangle, RtVertex};
use crate::upload::{be_bytes_of, buffer_words, records_words, GpuRecord};
use vstd::prelude::*;

verus! {

/// A vertex: position and U, then normal and V.
pub proof fn law_words_of_a_vertex(r: RtVertex)
    ensures
        ({
            let w = r.record_words();
            &&& w.len() == 8
            &&& w[0] == r.position@[0].bits && w[1] == r.position@[1].bits && w[2]
                == r.position@[2].bits
            &&& w[3] == r.u.bits
            &&& w[4] == r.normal@[0].bits && w[5] == r.normal@[1].bits && w[6]
                == r.normal@[2].bits
            &&& w[7] == r.v.bits
        }),
{
}

/// A triangle: its vertices, then its material.
pub proof fn law_words_of_a_triangle(r: RtTriangle)
    ensures
        r.record_words() == seq![r.v0, r.v1, r.v2, r.material_id],
{
    assert(r.record_words() =~= seq![r.v0, r.v1, r.v2, r.material_id]);
}

/// A mesh descriptor: its node base, then its triangle base.
pub proof fn law_words_of_a_mesh_descriptor(r: RtMeshDesc)
    ensures
        r.record_words() == seq![r.node_offset, r.tri_offset, r._pad@[0], r._pad@[1]],
{
    assert(r.record_words() =~= seq![r.node_offset, r.tri_offset, r._pad@[0], r._pad@[1]]);
}

/// An emitter: three padded positions and the padded emission.
pub proof fn law_words_of_an_emitter(r: RtEmitter)
    ensures
        ({
            let w = r.record_words();
            &&& w.len() == 16
            &&& w[0] == r.p0@[0].bits && w[1] == r.p0@[1].bits && w[2] == r.p0@[2].bits
            &&& w[4] == r.p1@[0].bits && w[5] == r.p1@[1].bits && w[6] == r.p1@[2].bits
            &&& w[8] == r.p2@[0].bits && w[9] == r.p2@[1].bits && w[10] == r.p2@[2].bits
            &&& w[12] == r.emission@[0].bits && w[13] == r.emission@[1].bits && w[14]
                == r.emission@[2].bits
            &&& w[3] == r._pad0.bits && w[7] == r._pad1.bits && w[11] == r._pad2.bits && w[15]
                == r._pad3.bits
        }),
{
}

/// A material: eight rows of four words, in the order of the record's fields.
pub proof fn law_words_of_a_material(r: RtMaterial)
    ensures
        ({
            let w = r.record_words();
            &&& w.len() == 32
            &&& w[0] == r.base_color@[0].bits && w[1] == r.base_color@[1].bits && w[2]
                == r.base_color@[2].bits && w[3] == r.base_color@[3].bits
            &&& w[4] == r.emissive@[0].bits && w[5] == r.emissive@[1].bits && w[6]
                == r.emissive@[2].bits && w[7] == r.emissive@[3].bits
            &&& w[8] == r.metallic.bits
            &&& w[9] == r.roughness.bits
            &&& w[10] == r.ior.bits
            &&& w[11] == r.transmission.bits
            &&& w[12] == r.specular_tint@[0].bits && w[13] == r.specular_tint@[1].bits && w[14]
                == r.specular_tint@[2].bits
            &&& w[15] == r.bsdf_type
            &&& w[16] == r.subsurface.bits
            &&& w[17] == r.subsurface_radius.bits
            &&& w[18] == r.reflectance.bits
            &&& w[19] == r.light_layers
            &&& w[20] == r.attenuation_color@[0].bits && w[21] == r.attenuation_color@[1].bits
                && w[22] == r.attenuation_color@[2].bits
            &&& w[23] == r.attenuation_distance.bits
            &&& w[24] == r.clearcoat.bits
            &&& w[25] == r.clearcoat_roughness.bits
            &&& w[26] == r.casts_shadows
            &&& w[27] == r._pad0.bits
            &&& w[28] == r.albedo_tex as u32
            &&& w[29] == r.normal_tex as u32
            &&& w[30] == r.mr_tex as u32
            &&& w[31] == r.emissive_tex as u32
        }),
{
}

/// A light: five rows of four words, in the order of the record's fields.
pub proof fn law_words_of_a_light(r: RtLight)
    ensures
        ({
            let w = r.record_words();
            &&& w.len() == 20
            &&& w[0] == r.position@[0].bits && w[1] == r.position@[1].bits && w[2]
                == r.position@[2].bits
            &&& w[3] == r.light_type
            &&& w[4] == r.direction@[0].bits && w[5] == r.direction@[1].bits && w[6]
                == r.direction@[2].bits
            &&& w[7] == r.intensity.bits
            &&& w[8] == r.color@[0].bits && w[9] == r.color@[1].bits && w[10]
                == r.color@[2].bits
            &&& w[11] == r.attenuation_radius.bits
            &&& w[12] == r.inner_cone_cos.bits
            &&& w[13] == r.outer_cone_cos.bits
            &&& w[14] == r.radius.bits
            &&& w[15] == r.layers
            &&& w[16] == r.casts_shadows
            &&& w[17] == r._pad0.bits && w[18] == r._pad1.bits && w[19] == r._pad2.bits
        }),
{
}

/// An instance: the two matrices column by column, then its indices and bases.
pub proof fn law_words_of_an_instance(r: RtInstance, c: int, k: int)
    requires
        0 <= c < 4,
        0 <= k < 4,
    ensures
        ({
            let w = r.record_words();
            &&& w.len() == 36
            &&& w[4 * c + k] == r.world_to_object@[c]@[k].bits
            &&& w[16 + 4 * c + k] == r.object_to_world@[c]@[k].bits
            &&& w[32] == r.mesh_id
            &&& w[33] == r.material_id
            &&& w[34] == r.node_offset
            &&& w[35] == r.tri_offset
        }),
{
    let w = r.record_words();
    assert(c == 0 || c == 1 || c == 2 || c == 3);
    assert(k == 0 || k == 1 || k == 2 || k == 3);
}

proof fn lemma_record_at<T: GpuRecord>(data: Seq<T>, r: int, j: int)
    requires
        0 <= r < data.len(),
        0 <= j < T::record_len(),
    ensures
        records_words(data).len() == data.len() * T::record_len(),
        records_words(data)[r * T::record_len() + j] == data[r].record_words()[j],
    decreases data.len(),
{
    let size = T::record_len();
    let n = data.len();
    let rest = data.drop_last();
    lemma_records_len(data);
    lemma_records_len(rest);
    data.last().lemma_record_len();
    assert((n - 1) * size + size == n * size) by (nonlinear_arith)
        requires
            n > 0,
    ;
    if r < n - 1 {
        lemma_record_at(rest, r, j);
        assert(r * size + j < (n - 1) * size && 0 <= r * size) by (nonlinear_arith)
            requires
                0 <= r < n - 1,
                0 <= j < size,
        ;
    }
}

/// Record `r` of a buffer is the `r`-th record of the list that it was made from, and a
/// buffer made from none is zeroed.
pub proof fn law_records_follow_one_another<T: GpuRecord>(data: Seq<T>, r: int, j: int)
    requires
        0 <= r,
        r < data.len() || (data.len() == 0 && r == 0),
        0 <= j < T::record_len(),
    ensures
        data.len() > 0 ==> buffer_words(data)[r * T::record_len() + j]
            == data[r].record_words()[j],
        data.len() == 0 ==> buffer_words(data)[j] == 0,
{
    if data.len() > 0 {
        lemma_record_at(data, r, j);
    }
}

/// The four bytes of a word are its digits in base 256, the least significant first.
pub proof fn law_bytes_of_a_word(w: u32)
    ensures
        le_bytes(w).len() == 4,
        w == le_bytes(w)[0] + 256 * le_bytes(w)[1] + 65536 * le_bytes(w)[2] + 16777216 * le_bytes(
            w,
        )[3],
{
    let a = (w % 256) as u8;
    let b = (w / 256 % 256) as u8;
    let c = (w / 65536 % 256) as u8;
    let d = (w / 16777216) as u8;
    assert(w % 256 + 256 * (w / 256 % 256) + 65536 * (w / 65536 % 256) + 16777216 * (w / 16777216)
        == w) by (bit_vector);
}

/// Word `i` of a sequence takes bytes `4 i` to `4 i + 3`: its own, least significant first on
/// a little-endian machine and last on a big-endian one.
pub proof fn law_bytes_of_words(words: Seq<u32>, i: int, k: int)
    requires
        0 <= i < words.len(),
        0 <= k < 4,
    ensures
        le_bytes_of(words).len() == 4 * words.len(),
        be_bytes_of(words).len() == 4 * words.len(),
        le_bytes_of(words)[4 * i + k] == le_bytes(words[i])[k],
        be_bytes_of(words)[4 * i + k] == le_bytes(words[i])[3 - k],
    decreases words.len(),
{
    lemma_bytes_len(words);
    lemma_bytes_len(words.drop_last());
    if i < words.len() - 1 {
        law_bytes_of_words(words.drop_last(), i, k);
    }
}

} // verus!
