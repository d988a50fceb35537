//! Contents of the GPU buffers, as words and as bytes.

use crate::content::lemma_concat;
use crate::float::F32;
use crate::fnv::{le_bytes, le_bytes_of};
use crate::records::{
    RtEmitter, RtInstance, RtLight, RtMaterial, RtMeshDesc, RtTriangle, RtVertex,
};
use crate::scene::Mat4;
use vstd::prelude::*;

verus! {

/// Four words of a record.
pub open spec fn row(a: u32, b: u32, c: u32, d: u32) -> Seq<u32> {
    seq![a, b, c, d]
}

/// Three numbers and a fourth word.
pub open spec fn row3(v: [F32; 3], d: u32) -> Seq<u32> {
    row(v[0].bits, v[1].bits, v[2].bits, d)
}

/// Four numbers.
pub open spec fn row4(v: [F32; 4]) -> Seq<u32> {
    row(v[0].bits, v[1].bits, v[2].bits, v[3].bits)
}

/// The columns of a matrix, one row each.
pub open spec fn matrix_rows(m: Mat4) -> Seq<u32> {
    row4(m[0]) + row4(m[1]) + row4(m[2]) + row4(m[3])
}

/// A record of a GPU buffer: a fixed number of 32-bit words.
pub trait GpuRecord: Copy {
    /// The words of the record, in memory order.
    spec fn record_words(&self) -> Seq<u32>;

    /// How many words every record of the type has.
    spec fn record_len() -> nat;

    /// A record has as many words as its type says.
    proof fn lemma_record_len(&self)
        ensures
            self.record_words().len() == Self::record_len(),
    ;

    /// How many words every record of the type has.
    fn word_count() -> (n: usize)
        ensures
            n == Self::record_len(),
    ;

    /// Appends the words of the record to `out`.
    fn write_words(&self, out: &mut Vec<u32>)
        ensures
            final(out)@ == old(out)@ + self.record_words(),
    ;
}

fn push_row(out: &mut Vec<u32>, a: u32, b: u32, c: u32, d: u32)
    ensures
        final(out)@ == old(out)@ + row(a, b, c, d),
{
    out.push(a);
    out.push(b);
    out.push(c);
    out.push(d);
    assert(out@ =~= old(out)@ + row(a, b, c, d));
}

fn push_row3(out: &mut Vec<u32>, v: [F32; 3], d: u32)
    ensures
        final(out)@ == old(out)@ + row3(v, d),
{
    push_row(out, v[0].bits, v[1].bits, v[2].bits, d);
}

fn push_row4(out: &mut Vec<u32>, v: [F32; 4])
    ensures
        final(out)@ == old(out)@ + row4(v),
{
    push_row(out, v[0].bits, v[1].bits, v[2].bits, v[3].bits);
}

fn push_matrix(out: &mut Vec<u32>, m: Mat4)
    ensures
        final(out)@ == old(out)@ + matrix_rows(m),
{
    push_row4(out, m[0]);
    push_row4(out, m[1]);
    push_row4(out, m[2]);
    push_row4(out, m[3]);
    assert(out@ =~= old(out)@ + matrix_rows(m));
}

impl GpuRecord for u32 {
    open spec fn record_words(&self) -> Seq<u32> {
        seq![*self]
    }

    open spec fn record_len() -> nat {
        1
    }

    proof fn lemma_record_len(&self) {
    }

    fn word_count() -> (n: usize) {
        1
    }

    fn write_words(&self, out: &mut Vec<u32>) {
        out.push(*self);
        assert(out@ =~= old(out)@ + self.record_words());
    }
}

impl GpuRecord for RtVertex {
    open spec fn record_words(&self) -> Seq<u32> {
        row3(self.position, self.u.bits) + row3(self.normal, self.v.bits)
    }

    open spec fn record_len() -> nat {
        8
    }

    proof fn lemma_record_len(&self) {
    }

    fn word_count() -> (n: usize) {
        8
    }

    fn write_words(&self, out: &mut Vec<u32>) {
        push_row3(out, self.position, self.u.bits);
        push_row3(out, self.normal, self.v.bits);
        assert(out@ =~= old(out)@ + self.record_words());
    }
}

impl GpuRecord for RtTriangle {
    open spec fn record_words(&self) -> Seq<u32> {
        row(self.v0, self.v1, self.v2, self.material_id)
    }

    open spec fn record_len() -> nat {
        4
    }

    proof fn lemma_record_len(&self) {
    }

    fn word_count() -> (n: usize) {
        4
    }

    fn write_words(&self, out: &mut Vec<u32>) {
        push_row(out, self.v0, self.v1, self.v2, self.material_id);
    }
}

impl GpuRecord for RtEmitter {
    open spec fn record_words(&self) -> Seq<u32> {
        row3(self.p0, self._pad0.bits) + row3(self.p1, self._pad1.bits) + row3(
            self.p2,
            self._pad2.bits,
        ) + row3(self.emission, self._pad3.bits)
    }

    open spec fn record_len() -> nat {
        16
    }

    proof fn lemma_record_len(&self) {
    }

    fn word_count() -> (n: usize) {
        16
    }

    fn write_words(&self, out: &mut Vec<u32>) {
        push_row3(out, self.p0, self._pad0.bits);
        push_row3(out, self.p1, self._pad1.bits);
        push_row3(out, self.p2, self._pad2.bits);
        push_row3(out, self.emission, self._pad3.bits);
        assert(out@ =~= old(out)@ + self.record_words());
    }
}

impl GpuRecord for RtMaterial {
    open spec fn record_words(&self) -> Seq<u32> {
        row4(self.base_color) + row4(self.emissive) + row(
            self.metallic.bits,
            self.roughness.bits,
            self.ior.bits,
            self.transmission.bits,
        ) + row3(self.specular_tint, self.bsdf_type) + row(
            self.subsurface.bits,
            self.subsurface_radius.bits,
            self.reflectance.bits,
            self.light_layers,
        ) + row3(self.attenuation_color, self.attenuation_distance.bits) + row(
            self.clearcoat.bits,
            self.clearcoat_roughness.bits,
            self.casts_shadows,
            self._pad0.bits,
        ) + row(
            self.albedo_tex as u32,
            self.normal_tex as u32,
            self.mr_tex as u32,
            self.emissive_tex as u32,
        )
    }

    open spec fn record_len() -> nat {
        32
    }

    proof fn lemma_record_len(&self) {
    }

    fn word_count() -> (n: usize) {
        32
    }

    fn write_words(&self, out: &mut Vec<u32>) {
        push_row4(out, self.base_color);
        push_row4(out, self.emissive);
        push_row(
            out,
            self.metallic.bits,
            self.roughness.bits,
            self.ior.bits,
            self.transmission.bits,
        );
        push_row3(out, self.specular_tint, self.bsdf_type);
        let ghost upper = out@;
        assert(upper =~= old(out)@ + (row4(self.base_color) + row4(self.emissive) + row(
            self.metallic.bits,
            self.roughness.bits,
            self.ior.bits,
            self.transmission.bits,
        ) + row3(self.specular_tint, self.bsdf_type)));
        push_row(
            out,
            self.subsurface.bits,
            self.subsurface_radius.bits,
            self.reflectance.bits,
            self.light_layers,
        );
        push_row3(out, self.attenuation_color, self.attenuation_distance.bits);
        push_row(
            out,
            self.clearcoat.bits,
            self.clearcoat_roughness.bits,
            self.casts_shadows,
            self._pad0.bits,
        );
        push_row(
            out,
            self.albedo_tex as u32,
            self.normal_tex as u32,
            self.mr_tex as u32,
            self.emissive_tex as u32,
        );
        assert(out@ =~= old(out)@ + self.record_words());
    }
}

impl GpuRecord for RtLight {
    open spec fn record_words(&self) -> Seq<u32> {
        row3(self.position, self.light_type) + row3(self.direction, self.intensity.bits) + row3(
            self.color,
            self.attenuation_radius.bits,
        ) + row(
            self.inner_cone_cos.bits,
            self.outer_cone_cos.bits,
            self.radius.bits,
            self.layers,
        ) + row(self.casts_shadows, self._pad0.bits, self._pad1.bits, self._pad2.bits)
    }

    open spec fn record_len() -> nat {
        20
    }

    proof fn lemma_record_len(&self) {
    }

    fn word_count() -> (n: usize) {
        20
    }

    fn write_words(&self, out: &mut Vec<u32>) {
        push_row3(out, self.position, self.light_type);
        push_row3(out, self.direction, self.intensity.bits);
        push_row3(out, self.color, self.attenuation_radius.bits);
        push_row(
            out,
            self.inner_cone_cos.bits,
            self.outer_cone_cos.bits,
            self.radius.bits,
            self.layers,
        );
        push_row(out, self.casts_shadows, self._pad0.bits, self._pad1.bits, self._pad2.bits);
        assert(out@ =~= old(out)@ + self.record_words());
    }
}

impl GpuRecord for RtInstance {
    open spec fn record_words(&self) -> Seq<u32> {
        matrix_rows(self.world_to_object) + matrix_rows(self.object_to_world) + row(
            self.mesh_id,
            self.material_id,
            self.node_offset,
            self.tri_offset,
        )
    }

    open spec fn record_len() -> nat {
        36
    }

    proof fn lemma_record_len(&self) {
    }

    fn word_count() -> (n: usize) {
        36
    }

    fn write_words(&self, out: &mut Vec<u32>) {
        push_matrix(out, self.world_to_object);
        push_matrix(out, self.object_to_world);
        push_row(out, self.mesh_id, self.material_id, self.node_offset, self.tri_offset);
        proof {
            let a = matrix_rows(self.world_to_object);
            let b = matrix_rows(self.object_to_world);
            let c = row(self.mesh_id, self.material_id, self.node_offset, self.tri_offset);
            lemma_concat(old(out)@, a, b);
            lemma_concat(old(out)@, a + b, c);
        }
    }
}

impl GpuRecord for RtMeshDesc {
    open spec fn record_words(&self) -> Seq<u32> {
        row(self.node_offset, self.tri_offset, self._pad[0], self._pad[1])
    }

    open spec fn record_len() -> nat {
        4
    }

    proof fn lemma_record_len(&self) {
    }

    fn word_count() -> (n: usize) {
        4
    }

    fn write_words(&self, out: &mut Vec<u32>) {
        push_row(out, self.node_offset, self.tri_offset, self._pad[0], self._pad[1]);
    }
}

/// The words of a list of records, record after record.
pub open spec fn records_words<T: GpuRecord>(data: Seq<T>) -> Seq<u32>
    decreases data.len(),
{
    if data.len() == 0 {
        Seq::empty()
    } else {
        records_words(data.drop_last()) + data.last().record_words()
    }
}

/// The contents of a buffer: the records, or one zeroed record where there are
/// none, so that the buffer is never empty.
pub open spec fn buffer_words<T: GpuRecord>(data: Seq<T>) -> Seq<u32> {
    if data.len() == 0 {
        Seq::new(T::record_len(), |i: int| 0u32)
    } else {
        records_words(data)
    }
}

/// The big-endian bytes of a sequence of words.
pub open spec fn be_bytes_of(words: Seq<u32>) -> Seq<u8>
    decreases words.len(),
{
    if words.len() == 0 {
        Seq::empty()
    } else {
        be_bytes_of(words.drop_last()) + le_bytes(words.last()).reverse()
    }
}

/// `bytes` are the words as they lie in the memory of a little-endian or of a
/// big-endian machine.
pub open spec fn memory_of(bytes: Seq<u8>, words: Seq<u32>) -> bool {
    bytes == le_bytes_of(words) || bytes == be_bytes_of(words)
}

/// The bytes of a slice of words.
///
/// Calls `bytemuck::cast_slice`, which reinterprets the memory of the words: four
/// bytes per word, in the byte order of the machine. The cast cannot fail, since
/// bytes have no alignment and every length of words is a whole number of bytes.
#[verifier::external_body]
fn bytes_of(words: &[u32]) -> (bytes: &[u8])
    ensures
        memory_of(bytes@, words@),
{
    bytemuck::cast_slice(words)
}

/// The words of a buffer that holds `data`.
pub fn buffer_contents<T: GpuRecord>(data: &Vec<T>) -> (words: Vec<u32>)
    ensures
        words@ == buffer_words(data@),
{
    let mut words: Vec<u32> = Vec::new();
    if data.len() == 0 {
        let n: usize = T::word_count();
        let mut i: usize = 0;
        while i < n
            invariant
                i <= n,
                words@ == Seq::new(i as nat, |j: int| 0u32),
            decreases n - i,
        {
            words.push(0);
            assert(words@ =~= Seq::new((i + 1) as nat, |j: int| 0u32));
            i = i + 1;
        }
        return words;
    }
    let mut i: usize = 0;
    while i < data.len()
        invariant
            i <= data.len(),
            words@ == records_words(data@.take(i as int)),
        decreases data.len() - i,
    {
        data[i].write_words(&mut words);
        assert(data@.take(i + 1).drop_last() =~= data@.take(i as int));
        i = i + 1;
    }
    assert(data@.take(i as int) =~= data@);
    words
}

/// The bytes to upload for a buffer that holds `data`.
pub fn buffer_from<T: GpuRecord>(data: &Vec<T>) -> (bytes: Vec<u8>)
    ensures
        memory_of(bytes@, buffer_words(data@)),
{
    let words = buffer_contents(data);
    let bytes = bytes_of(words.as_slice());
    let mut out: Vec<u8> = Vec::new();
    out.extend_from_slice(bytes);
    assert(out@ =~= bytes@);
    out
}

} // verus!
