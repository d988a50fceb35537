//! FNV-1a content hashing of 32-bit words.

use crate::float::F32;
use crate::scene::Vec3;
use vstd::prelude::*;

verus! {

/// The 64-bit FNV offset basis.
pub const FNV_OFFSET: u64 = 0xcbf2_9ce4_8422_2325;

/// The 64-bit FNV prime.
pub const FNV_PRIME: u64 = 0x100_0000_01b3;

/// One FNV-1a step: fold in a byte, then multiply by the prime modulo `2^64`.
pub open spec fn fnv_byte(state: u64, byte: u8) -> u64 {
    (state ^ (byte as u64)).wrapping_mul(FNV_PRIME)
}

/// The state after folding `bytes`, first to last, into `state`.
pub open spec fn fnv_bytes(state: u64, bytes: Seq<u8>) -> u64
    decreases bytes.len(),
{
    if bytes.len() == 0 {
        state
    } else {
        fnv_byte(fnv_bytes(state, bytes.drop_last()), bytes.last())
    }
}

/// The little-endian bytes of a word.
pub open spec fn le_bytes(word: u32) -> Seq<u8> {
    seq![
        (word % 256) as u8,
        (word / 256 % 256) as u8,
        (word / 65536 % 256) as u8,
        (word / 16777216) as u8,
    ]
}

/// The little-endian bytes of a sequence of words.
pub open spec fn le_bytes_of(words: Seq<u32>) -> Seq<u8>
    decreases words.len(),
{
    if words.len() == 0 {
        Seq::empty()
    } else {
        le_bytes_of(words.drop_last()) + le_bytes(words.last())
    }
}

/// The FNV-1a hash of the little-endian bytes of `words`.
pub open spec fn fnv1a(words: Seq<u32>) -> u64 {
    fnv_bytes(FNV_OFFSET, le_bytes_of(words))
}

/// The word that stands for a number in a hash: its bit pattern, except that the
/// two zeros share the word `0`.
pub open spec fn number_word(v: F32) -> u32 {
    if !v.nan() && v.value() == 0 {
        0
    } else {
        v.bits
    }
}

/// The words that stand for a vector in a hash.
pub open spec fn vec3_words(v: Vec3) -> Seq<u32> {
    seq![number_word(v.x), number_word(v.y), number_word(v.z)]
}

/// An FNV-1a hasher. Its view is the sequence of words written so far.
pub struct Fnv {
    state: u64,
    content: Ghost<Seq<u32>>,
}

impl View for Fnv {
    type V = Seq<u32>;

    closed spec fn view(&self) -> Seq<u32> {
        self.content@
    }
}

/// Folding a concatenation is folding its parts one after the other.
pub proof fn lemma_fnv_bytes_concat(state: u64, a: Seq<u8>, b: Seq<u8>)
    ensures
        fnv_bytes(state, a + b) == fnv_bytes(fnv_bytes(state, a), b),
    decreases b.len(),
{
    if b.len() == 0 {
        assert(a + b =~= a);
    } else {
        assert((a + b).drop_last() =~= a + b.drop_last());
        lemma_fnv_bytes_concat(state, a, b.drop_last());
    }
}

impl Fnv {
    #[verifier::type_invariant]
    closed spec fn consistent(self) -> bool {
        self.state == fnv1a(self.content@)
    }

    /// A hasher that has been written nothing.
    pub fn new() -> (h: Fnv)
        ensures
            h@ == Seq::<u32>::empty(),
    {
        Fnv { state: FNV_OFFSET, content: Ghost(Seq::empty()) }
    }

    /// Folds a word, least significant byte first, into the hash.
    pub fn write_u32(&mut self, v: u32)
        ensures
            final(self)@ == old(self)@.push(v),
    {
        proof {
            use_type_invariant(&*self);
        }
        let ghost words = self.content@;
        let b0: u8 = (v % 256) as u8;
        let b1: u8 = (v / 256 % 256) as u8;
        let b2: u8 = (v / 65536 % 256) as u8;
        let b3: u8 = (v / 16777216) as u8;
        let s0: u64 = (self.state ^ (b0 as u64)).wrapping_mul(FNV_PRIME);
        let s1: u64 = (s0 ^ (b1 as u64)).wrapping_mul(FNV_PRIME);
        let s2: u64 = (s1 ^ (b2 as u64)).wrapping_mul(FNV_PRIME);
        let s3: u64 = (s2 ^ (b3 as u64)).wrapping_mul(FNV_PRIME);
        proof {
            let bytes = le_bytes(v);
            assert(words.push(v).drop_last() =~= words);
            lemma_fnv_bytes_concat(FNV_OFFSET, le_bytes_of(words), bytes);
            reveal_with_fuel(fnv_bytes, 5);
            assert(bytes.drop_last() =~= seq![b0, b1, b2]);
            assert(bytes.drop_last().drop_last() =~= seq![b0, b1]);
            assert(bytes.drop_last().drop_last().drop_last() =~= seq![b0]);
            assert(bytes.drop_last().drop_last().drop_last().drop_last() =~= Seq::empty());
        }
        *self = Fnv { state: s3, content: Ghost(words.push(v)) };
    }

    /// Folds a number into the hash; both zeros are folded in as `0`, so numbers
    /// that are equal hash equally.
    pub fn write_f32(&mut self, v: F32)
        ensures
            final(self)@ == old(self)@.push(number_word(v)),
    {
        let zero = F32::from_bits(0);
        if v.num_eq(zero) {
            self.write_u32(0);
        } else {
            self.write_u32(v.bits);
        }
    }

    /// Folds the three components of a vector into the hash.
    pub fn write_vec3(&mut self, v: Vec3)
        ensures
            final(self)@ == old(self)@ + vec3_words(v),
    {
        self.write_f32(v.x);
        self.write_f32(v.y);
        self.write_f32(v.z);
        assert(self@ =~= old(self)@ + vec3_words(v));
    }

    /// The hash of everything written so far.
    pub fn finish(&self) -> (hash: u64)
        ensures
            hash == fnv1a(self@),
    {
        proof {
            use_type_invariant(self);
        }
        self.state
    }
}

} // verus!
