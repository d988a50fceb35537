//! Laws of the hash function.

use crate::fnv::{
    fnv1a, fnv_byte, fnv_bytes, le_bytes, le_bytes_of, lemma_fnv_bytes_concat, FNV_OFFSET,
    FNV_PRIME,
};
use vstd::prelude::*;

verus! {

/// The multiplicative inverse of the FNV prime modulo `2^64`.
pub const FNV_PRIME_INVERSE: u64 = 0xce96_5057_aff6_957b;

/// A hash step can be undone: different states stay different, and different bytes
/// lead to different states.
pub proof fn law_hash_step_is_injective(s: u64, t: u64, a: u8, b: u8)
    ensures
        fnv_byte(s, a) == fnv_byte(t, a) ==> s == t,
        fnv_byte(s, a) == fnv_byte(s, b) ==> a == b,
{
    let x = s ^ (a as u64);
    let y = t ^ (a as u64);
    let z = s ^ (b as u64);
    lemma_prime_is_invertible(x);
    lemma_prime_is_invertible(y);
    lemma_prime_is_invertible(z);
    assert(s ^ (a as u64) == t ^ (a as u64) ==> s == t) by (bit_vector);
    assert(s ^ (a as u64) == s ^ (b as u64) ==> a == b) by (bit_vector);
}

proof fn lemma_prime_is_invertible(x: u64)
    ensures
        x.wrapping_mul(FNV_PRIME).wrapping_mul(FNV_PRIME_INVERSE) == x,
{
    let m = 0x1_0000_0000_0000_0000int;
    let p = FNV_PRIME as int;
    let q = FNV_PRIME_INVERSE as int;
    let y = x.wrapping_mul(FNV_PRIME);
    assert(y as int == (x * p) % m);
    assert(y.wrapping_mul(FNV_PRIME_INVERSE) as int == (y * q) % m);
    assert((p * q) % m == 1) by (nonlinear_arith)
        requires
            p == 0x100_0000_01b3,
            q == 0xce96_5057_aff6_957b,
            m == 0x1_0000_0000_0000_0000,
    ;
    vstd::arithmetic::div_mod::lemma_mul_mod_noop_left(x * p, q, m);
    assert((x * p) * q == x * (p * q)) by (nonlinear_arith);
    vstd::arithmetic::div_mod::lemma_mul_mod_noop_right(x as int, p * q, m);
    vstd::arithmetic::div_mod::lemma_small_mod(x as nat, m as nat);
    assert(x * 1 == x);
}

/// Content that differs in exactly one byte hashes differently.
pub proof fn law_single_byte_change_is_detected(
    state: u64,
    before: Seq<u8>,
    a: u8,
    b: u8,
    after: Seq<u8>,
)
    requires
        a != b,
    ensures
        fnv_bytes(state, before.push(a) + after) != fnv_bytes(state, before.push(b) + after),
    decreases after.len(),
{
    let s = fnv_bytes(state, before);
    if after.len() == 0 {
        assert(before.push(a) + after =~= before.push(a));
        assert(before.push(b) + after =~= before.push(b));
        assert(before.push(a).drop_last() =~= before);
        assert(before.push(b).drop_last() =~= before);
        law_hash_step_is_injective(s, s, a, b);
    } else {
        let rest = after.drop_last();
        law_single_byte_change_is_detected(state, before, a, b, rest);
        assert((before.push(a) + after).drop_last() =~= before.push(a) + rest);
        assert((before.push(b) + after).drop_last() =~= before.push(b) + rest);
        law_hash_step_is_injective(
            fnv_bytes(state, before.push(a) + rest),
            fnv_bytes(state, before.push(b) + rest),
            after.last(),
            after.last(),
        );
    }
}

/// Different states stay different, whatever is folded in.
proof fn lemma_states_stay_different(s: u64, t: u64, bytes: Seq<u8>)
    requires
        s != t,
    ensures
        fnv_bytes(s, bytes) != fnv_bytes(t, bytes),
    decreases bytes.len(),
{
    if bytes.len() > 0 {
        lemma_states_stay_different(s, t, bytes.drop_last());
        law_hash_step_is_injective(
            fnv_bytes(s, bytes.drop_last()),
            fnv_bytes(t, bytes.drop_last()),
            bytes.last(),
            bytes.last(),
        );
    }
}

/// With the prime `p = 2^40 + 435`, the number `d p^3 + e p^2 + f p + g` is a multiple
/// of `2^64` for small coefficients only where `d` is zero.
proof fn lemma_no_small_relation(d: int, e: int, f: int, g: int, k: int)
    requires
        -255 <= d <= 255,
        -510 <= e <= 510,
        -510 <= f <= 510,
        -510 <= g <= 510,
        ({
            let p = FNV_PRIME as int;
            d * (p * p * p) + e * (p * p) + f * p + g == k * 0x1_0000_0000_0000_0000
        }),
    ensures
        d == 0,
{
    let p = FNV_PRIME as int;
    let h = 0x100_0000_0000int;
    let m = 0x1_0000_0000_0000_0000int;
    assert(p == h + 435);
    let pp = 0x1_0000int * m + 870 * h + 189225;
    let ppp = (0x100_0000_0000_0000int + 1305 * 0x1_0000) * m + 567675 * h + 82312875;
    assert(p * p == pp) by (nonlinear_arith)
        requires
            p == 0x100_0000_01b3,
            pp == 0x1_0000int * 0x1_0000_0000_0000_0000 + 870 * 0x100_0000_0000 + 189225,
    ;
    assert(p * p * p == ppp) by (nonlinear_arith)
        requires
            p == 0x100_0000_01b3,
            ppp == (0x100_0000_0000_0000int + 1305 * 0x1_0000) * 0x1_0000_0000_0000_0000 + 567675
                * 0x100_0000_0000 + 82312875,
    ;
    let c = 567675 * d + 870 * e + f;
    let r = 82312875 * d + 189225 * e + 435 * f + g;
    let n = (0x100_0000_0000_0000int + 1305 * 0x1_0000) * d + 0x1_0000 * e;
    assert(h * c + r == (k - n) * m) by (nonlinear_arith)
        requires
            d * ppp + e * pp + f * p + g == k * m,
            p == h + 435,
            h == 0x100_0000_0000,
            m == 0x1_0000_0000_0000_0000,
            pp == 0x1_0000int * m + 870 * h + 189225,
            ppp == (0x100_0000_0000_0000int + 1305 * 0x1_0000) * m + 567675 * h + 82312875,
            c == 567675 * d + 870 * e + f,
            r == 82312875 * d + 189225 * e + 435 * f + g,
            n == (0x100_0000_0000_0000int + 1305 * 0x1_0000) * d + 0x1_0000 * e,
    ;
    let j = k - n;
    assert(m == h * 0x100_0000);
    assert(h * (c - 0x100_0000 * j) == -r) by (nonlinear_arith)
        requires
            h * c + r == j * m,
            m == h * 0x100_0000,
    ;
    assert(c == 0x100_0000 * j && r == 0) by (nonlinear_arith)
        requires
            h * (c - 0x100_0000 * j) == -r,
            h == 0x100_0000_0000,
            -0x100_0000_0000 < r < 0x100_0000_0000,
    ;
    let q = 189225 * d + 435 * e + f;
    assert(435 * q + g == 0);
    assert(c == 3 * q - 435 * e - 2 * f);
}

/// How much folding a byte in changes a state before the multiplication.
proof fn lemma_fold_is_small(x: u64, y: u64, a: u8, b: u8)
    ensures
        -255 <= (x ^ (a as u64)) - x <= 255,
        -255 <= (y ^ (b as u64)) - y <= 255,
        -255 <= (x ^ (a as u64)) - (x ^ (b as u64)) <= 255,
        x ^ (a as u64) == x ^ (b as u64) ==> a == b,
{
    assert((x ^ (a as u64)) - x <= 255 && x - (x ^ (a as u64)) <= 255) by (bit_vector);
    assert((y ^ (b as u64)) - y <= 255 && y - (y ^ (b as u64)) <= 255) by (bit_vector);
    assert((x ^ (a as u64)) - (x ^ (b as u64)) <= 255 && (x ^ (b as u64)) - (x ^ (a as u64)) <= 255)
        by (bit_vector);
    assert(x ^ (a as u64) == x ^ (b as u64) ==> a == b) by (bit_vector);
}

/// A step multiplies by the prime, up to a multiple of `2^64`.
proof fn lemma_step_multiplies(s: u64, a: u8) -> (k: int)
    ensures
        fnv_byte(s, a) == (s ^ (a as u64)) * FNV_PRIME - k * 0x1_0000_0000_0000_0000,
{
    let u = s ^ (a as u64);
    let m = 0x1_0000_0000_0000_0000int;
    let product = u * FNV_PRIME;
    assert(fnv_byte(s, a) as int == product % m);
    vstd::arithmetic::div_mod::lemma_fundamental_div_mod(product, m);
    assert(m * (product / m) == (product / m) * m) by (nonlinear_arith);
    product / m
}

/// The state after four bytes.
pub open spec fn fold_four(s: u64, a: u8, b: u8, c: u8, d: u8) -> u64 {
    fnv_byte(fnv_byte(fnv_byte(fnv_byte(s, a), b), c), d)
}

proof fn lemma_four_bytes_are_injective(s: u64, a: Seq<u8>, b: Seq<u8>)
    requires
        a.len() == 4,
        b.len() == 4,
        fold_four(s, a[0], a[1], a[2], a[3]) == fold_four(s, b[0], b[1], b[2], b[3]),
    ensures
        a == b,
{
    let p = FNV_PRIME as int;
    let m = 0x1_0000_0000_0000_0000int;
    let x1 = fnv_byte(s, a[0]);
    let y1 = fnv_byte(s, b[0]);
    let x2 = fnv_byte(x1, a[1]);
    let y2 = fnv_byte(y1, b[1]);
    let x3 = fnv_byte(x2, a[2]);
    let y3 = fnv_byte(y2, b[2]);
    let u0 = (s ^ (a[0] as u64)) as int;
    let v0 = (s ^ (b[0] as u64)) as int;
    let u1 = (x1 ^ (a[1] as u64)) as int;
    let v1 = (y1 ^ (b[1] as u64)) as int;
    let u2 = (x2 ^ (a[2] as u64)) as int;
    let v2 = (y2 ^ (b[2] as u64)) as int;
    let u3 = (x3 ^ (a[3] as u64)) as int;
    let v3 = (y3 ^ (b[3] as u64)) as int;
    lemma_fold_is_small(s, s, a[0], b[0]);
    lemma_fold_is_small(x1, y1, a[1], b[1]);
    lemma_fold_is_small(x2, y2, a[2], b[2]);
    lemma_fold_is_small(x3, y3, a[3], b[3]);
    lemma_prime_is_invertible(x3 ^ (a[3] as u64));
    lemma_prime_is_invertible(y3 ^ (b[3] as u64));
    assert(u3 == v3);
    let kx1 = lemma_step_multiplies(s, a[0]);
    let ky1 = lemma_step_multiplies(s, b[0]);
    let kx2 = lemma_step_multiplies(x1, a[1]);
    let ky2 = lemma_step_multiplies(y1, b[1]);
    let kx3 = lemma_step_multiplies(x2, a[2]);
    let ky3 = lemma_step_multiplies(y2, b[2]);
    let t0 = u0 - v0;
    let t1 = (u1 - x1) - (v1 - y1);
    let t2 = (u2 - x2) - (v2 - y2);
    let t3 = (u3 - x3) - (v3 - y3);
    let j1 = kx1 - ky1;
    let j2 = kx2 - ky2;
    let j3 = kx3 - ky3;
    assert(x1 - y1 == t0 * p - j1 * m) by (nonlinear_arith)
        requires
            x1 == u0 * p - kx1 * m,
            y1 == v0 * p - ky1 * m,
            t0 == u0 - v0,
            j1 == kx1 - ky1,
    ;
    assert(x2 - y2 == (x1 - y1 + t1) * p - j2 * m) by (nonlinear_arith)
        requires
            x2 == u1 * p - kx2 * m,
            y2 == v1 * p - ky2 * m,
            x1 - y1 + t1 == u1 - v1,
            j2 == kx2 - ky2,
    ;
    assert(x3 - y3 == (x2 - y2 + t2) * p - j3 * m) by (nonlinear_arith)
        requires
            x3 == u2 * p - kx3 * m,
            y3 == v2 * p - ky3 * m,
            x2 - y2 + t2 == u2 - v2,
            j3 == kx3 - ky3,
    ;
    assert(x3 - y3 + t3 == 0);
    let d1 = x1 - y1;
    let d2 = x2 - y2;
    let d3 = x3 - y3;
    lemma_expand(t0, t1, t2, t3, d1, d2, d3, j1, j2, j3, p, m);
    lemma_no_small_relation(t0, t1, t2, t3, j1 * (p * p) + j2 * p + j3);
    assert(a[0] == b[0]);
    assert(x1 == y1);
    assert(t1 == u1 - v1);
    lemma_expand(t1, t2, t3, 0, d2, d3, 0, j2, j3, 0, p, m);
    lemma_no_small_relation(t1, t2, t3, 0, j2 * (p * p) + j3 * p + 0);
    assert(a[1] == b[1]);
    assert(x2 == y2);
    assert(t2 == u2 - v2);
    lemma_expand(t2, t3, 0, 0, d3, 0, 0, j3, 0, 0, p, m);
    lemma_no_small_relation(t2, t3, 0, 0, j3 * (p * p) + 0 * p + 0);
    assert(a[2] == b[2]);
    assert(x3 == y3);
    assert(a[3] == b[3]);
    assert(a =~= b);
}

proof fn lemma_expand(
    t0: int,
    t1: int,
    t2: int,
    t3: int,
    d1: int,
    d2: int,
    d3: int,
    j1: int,
    j2: int,
    j3: int,
    p: int,
    m: int,
)
    requires
        d1 == t0 * p - j1 * m,
        d2 == (d1 + t1) * p - j2 * m,
        d3 == (d2 + t2) * p - j3 * m,
        d3 + t3 == 0,
    ensures
        t0 * (p * p * p) + t1 * (p * p) + t2 * p + t3 == (j1 * (p * p) + j2 * p + j3) * m,
{
    assert(d2 == t0 * (p * p) + t1 * p - (j1 * p + j2) * m) by (nonlinear_arith)
        requires
            d1 == t0 * p - j1 * m,
            d2 == (d1 + t1) * p - j2 * m,
    ;
    assert(d3 == t0 * (p * p * p) + t1 * (p * p) + t2 * p - (j1 * (p * p) + j2 * p + j3) * m)
        by (nonlinear_arith)
        requires
            d2 == t0 * (p * p) + t1 * p - (j1 * p + j2) * m,
            d3 == (d2 + t2) * p - j3 * m,
    ;
}

proof fn lemma_le_bytes_concat(a: Seq<u32>, b: Seq<u32>)
    ensures
        le_bytes_of(a + b) == le_bytes_of(a) + le_bytes_of(b),
    decreases b.len(),
{
    if b.len() == 0 {
        assert(a + b =~= a);
        assert(le_bytes_of(a) + le_bytes_of(b) =~= le_bytes_of(a));
    } else {
        lemma_le_bytes_concat(a, b.drop_last());
        assert((a + b).drop_last() =~= a + b.drop_last());
        assert((a + b).last() == b.last());
        assert(le_bytes_of(a + b) =~= le_bytes_of(a) + le_bytes_of(b));
    }
}

/// The state after one word.
proof fn lemma_fold_word(s: u64, w: u32)
    ensures
        ({
            let b = le_bytes(w);
            fnv_bytes(s, b) == fold_four(s, b[0], b[1], b[2], b[3])
        }),
{
    let b = le_bytes(w);
    reveal_with_fuel(fnv_bytes, 5);
    assert(b.drop_last() =~= seq![b[0], b[1], b[2]]);
    assert(b.drop_last().drop_last() =~= seq![b[0], b[1]]);
    assert(b.drop_last().drop_last().drop_last() =~= seq![b[0]]);
    assert(b.drop_last().drop_last().drop_last().drop_last() =~= Seq::empty());
}

/// Content that differs in exactly one word hashes differently: the change of a single
/// hashed property never goes unnoticed.
pub proof fn law_single_word_change_is_detected(words: Seq<u32>, i: int, w: u32)
    requires
        0 <= i < words.len(),
        w != words[i],
    ensures
        fnv1a(words.update(i, w)) != fnv1a(words),
{
    let v = words[i];
    let head = words.take(i);
    let rest = words.skip(i + 1);
    assert(words =~= head + seq![v] + rest);
    assert(words.update(i, w) =~= head + seq![w] + rest);
    let s = fnv_bytes(FNV_OFFSET, le_bytes_of(head));
    lemma_word_in_content(head, v, rest);
    lemma_word_in_content(head, w, rest);
    lemma_words_are_told_apart(s, v, w);
    lemma_states_stay_different(
        fnv_bytes(s, le_bytes(v)),
        fnv_bytes(s, le_bytes(w)),
        le_bytes_of(rest),
    );
}

proof fn lemma_words_are_told_apart(s: u64, v: u32, w: u32)
    requires
        v != w,
    ensures
        fnv_bytes(s, le_bytes(v)) != fnv_bytes(s, le_bytes(w)),
{
    lemma_fold_word(s, v);
    lemma_fold_word(s, w);
    if fnv_bytes(s, le_bytes(v)) == fnv_bytes(s, le_bytes(w)) {
        lemma_four_bytes_are_injective(s, le_bytes(v), le_bytes(w));
        lemma_le_bytes_are_injective(v, w);
    }
}

proof fn lemma_le_bytes_are_injective(v: u32, w: u32)
    requires
        le_bytes(v) == le_bytes(w),
    ensures
        v == w,
{
    let a = le_bytes(v);
    let b = le_bytes(w);
    assert(a[0] == b[0] && a[1] == b[1] && a[2] == b[2] && a[3] == b[3]);
    assert(v % 256 == w % 256 && v / 256 % 256 == w / 256 % 256 && v / 65536 % 256 == w / 65536
        % 256 && v / 16777216 == w / 16777216 ==> v == w) by (bit_vector);
}

proof fn lemma_word_in_content(head: Seq<u32>, v: u32, rest: Seq<u32>)
    ensures
        fnv1a(head + seq![v] + rest) == fnv_bytes(
            fnv_bytes(fnv_bytes(FNV_OFFSET, le_bytes_of(head)), le_bytes(v)),
            le_bytes_of(rest),
        ),
{
    lemma_le_bytes_concat(head + seq![v], rest);
    lemma_le_bytes_concat(head, seq![v]);
    reveal_with_fuel(le_bytes_of, 2);
    assert(seq![v].drop_last() =~= Seq::empty());
    assert(le_bytes_of(seq![v]) =~= le_bytes(v));
    lemma_fnv_bytes_concat(
        FNV_OFFSET,
        le_bytes_of(head) + le_bytes(v),
        le_bytes_of(rest),
    );
    lemma_fnv_bytes_concat(FNV_OFFSET, le_bytes_of(head), le_bytes(v));
}

/// The hash of nothing is the offset basis, and every further word folds in its four bytes,
/// least significant first: each is added without carry and the state is then multiplied by
/// the prime, all modulo `2^64`.
pub proof fn law_hash_of_words(words: Seq<u32>, w: u32)
    ensures
        fnv1a(Seq::<u32>::empty()) == 0xcbf2_9ce4_8422_2325u64,
        ({
            let m = 0x1_0000_0000_0000_0000int;
            let p = 0x100_0000_01b3int;
            let s0 = fnv1a(words);
            let s1 = (((s0 ^ ((w % 256) as u64)) * p) % m) as u64;
            let s2 = (((s1 ^ ((w / 256 % 256) as u64)) * p) % m) as u64;
            let s3 = (((s2 ^ ((w / 65536 % 256) as u64)) * p) % m) as u64;
            let s4 = (((s3 ^ ((w / 16777216) as u64)) * p) % m) as u64;
            fnv1a(words.push(w)) == s4
        }),
{
    reveal_with_fuel(le_bytes_of, 2);
    let b = le_bytes(w);
    assert(words.push(w).drop_last() =~= words);
    lemma_fnv_bytes_concat(FNV_OFFSET, le_bytes_of(words), b);
    lemma_fold_word(fnv1a(words), w);
    let s0 = fnv1a(words);
    lemma_step_value(s0, b[0]);
    let s1 = fnv_byte(s0, b[0]);
    lemma_step_value(s1, b[1]);
    let s2 = fnv_byte(s1, b[1]);
    lemma_step_value(s2, b[2]);
    let s3 = fnv_byte(s2, b[2]);
    lemma_step_value(s3, b[3]);
}

proof fn lemma_step_value(s: u64, a: u8)
    ensures
        fnv_byte(s, a) == (((s ^ (a as u64)) * 0x100_0000_01b3int)
            % 0x1_0000_0000_0000_0000int) as u64,
{
    assert(fnv_byte(s, a) as int == ((s ^ (a as u64)) * FNV_PRIME) % 0x1_0000_0000_0000_0000int);
}

} // verus!
