//! The algebra behind the AES round trip: MixColumns and its inverse are
//! linear over exclusive or and undo each other.
use crate::aes::tables::{
    inv_mix_byte, mix, mix_byte, times11, times13, times14, times3, times9, xtime,
};
use crate::words::{byte0, byte1, byte2, byte3, lemma_pack_bytes, pack};
use vstd::prelude::*;

verus! {

/// Multiplication by a constant goes through a sum, term by term.
proof fn lemma_times_linear(x: u8, y: u8)
    by (bit_vector)
    ensures
        xtime(x ^ y) == xtime(x) ^ xtime(y),
        times3(x ^ y) == times3(x) ^ times3(y),
        times9(x ^ y) == times9(x) ^ times9(y),
        times11(x ^ y) == times11(x) ^ times11(y),
        times13(x ^ y) == times13(x) ^ times13(y),
        times14(x ^ y) == times14(x) ^ times14(y),
{
}

/// Multiplication by a constant goes through a sum of four bytes, term by
/// term.
proof fn lemma_times_sum(x: u8, y: u8, z: u8, t: u8)
    ensures
        xtime(x ^ y ^ z ^ t) == xtime(x) ^ xtime(y) ^ xtime(z) ^ xtime(t),
        times3(x ^ y ^ z ^ t) == times3(x) ^ times3(y) ^ times3(z) ^ times3(t),
        times9(x ^ y ^ z ^ t) == times9(x) ^ times9(y) ^ times9(z) ^ times9(t),
        times11(x ^ y ^ z ^ t) == times11(x) ^ times11(y) ^ times11(z) ^ times11(t),
        times13(x ^ y ^ z ^ t) == times13(x) ^ times13(y) ^ times13(z) ^ times13(t),
        times14(x ^ y ^ z ^ t) == times14(x) ^ times14(y) ^ times14(z) ^ times14(t),
{
    lemma_times_linear(x ^ y ^ z, t);
    lemma_times_linear(x ^ y, z);
    lemma_times_linear(x, y);
}

/// The product of the two mixing matrices, entry by entry: one on the
/// diagonal, zero elsewhere, whichever of the two comes first.
proof fn lemma_matrix_product(a: u8)
    by (bit_vector)
    ensures
        times14(xtime(a)) ^ times11(a) ^ times13(a) ^ times9(times3(a)) == a,
        times14(times3(a)) ^ times11(xtime(a)) ^ times13(a) ^ times9(a) == 0,
        times14(a) ^ times11(times3(a)) ^ times13(xtime(a)) ^ times9(a) == 0,
        times14(a) ^ times11(a) ^ times13(times3(a)) ^ times9(xtime(a)) == 0,
        xtime(times14(a)) ^ times3(times9(a)) ^ times13(a) ^ times11(a) == a,
        xtime(times11(a)) ^ times3(times14(a)) ^ times9(a) ^ times13(a) == 0,
        xtime(times13(a)) ^ times3(times11(a)) ^ times14(a) ^ times9(a) == 0,
        xtime(times9(a)) ^ times3(times13(a)) ^ times11(a) ^ times14(a) == 0,
{
}

/// Four sums of four terms, added up, are the four sums along the
/// diagonals; where the first of those is `a` and the others vanish, the
/// total is `a`.
proof fn lemma_regroup(
    a: u8,
    t11: u8,
    t12: u8,
    t13: u8,
    t14: u8,
    t21: u8,
    t22: u8,
    t23: u8,
    t24: u8,
    t31: u8,
    t32: u8,
    t33: u8,
    t34: u8,
    t41: u8,
    t42: u8,
    t43: u8,
    t44: u8,
)
    by (bit_vector)
    requires
        t11 ^ t24 ^ t33 ^ t42 == a,
        t12 ^ t21 ^ t34 ^ t43 == 0,
        t13 ^ t22 ^ t31 ^ t44 == 0,
        t14 ^ t23 ^ t32 ^ t41 == 0,
    ensures
        (t11 ^ t12 ^ t13 ^ t14) ^ (t21 ^ t22 ^ t23 ^ t24) ^ (t31 ^ t32 ^ t33 ^ t34) ^ (t41 ^ t42
            ^ t43 ^ t44) == a,
{
}

/// One byte of a column that was mixed and then inversely mixed, or the
/// other way round, is the byte that was there.
proof fn lemma_mix_byte_inverse(a: u8, b: u8, c: u8, d: u8)
    ensures
        inv_mix_byte(
            mix_byte(a, b, c, d),
            mix_byte(b, c, d, a),
            mix_byte(c, d, a, b),
            mix_byte(d, a, b, c),
        ) == a,
        mix_byte(
            inv_mix_byte(a, b, c, d),
            inv_mix_byte(b, c, d, a),
            inv_mix_byte(c, d, a, b),
            inv_mix_byte(d, a, b, c),
        ) == a,
{
    lemma_matrix_product(a);
    lemma_matrix_product(b);
    lemma_matrix_product(c);
    lemma_matrix_product(d);
    lemma_times_sum(xtime(a), times3(b), c, d);
    lemma_times_sum(xtime(b), times3(c), d, a);
    lemma_times_sum(xtime(c), times3(d), a, b);
    lemma_times_sum(xtime(d), times3(a), b, c);
    lemma_regroup(
        a,
        times14(xtime(a)),
        times14(times3(b)),
        times14(c),
        times14(d),
        times11(xtime(b)),
        times11(times3(c)),
        times11(d),
        times11(a),
        times13(xtime(c)),
        times13(times3(d)),
        times13(a),
        times13(b),
        times9(xtime(d)),
        times9(times3(a)),
        times9(b),
        times9(c),
    );
    lemma_times_sum(times14(a), times11(b), times13(c), times9(d));
    lemma_times_sum(times14(b), times11(c), times13(d), times9(a));
    lemma_regroup(
        a,
        xtime(times14(a)),
        xtime(times11(b)),
        xtime(times13(c)),
        xtime(times9(d)),
        times3(times14(b)),
        times3(times11(c)),
        times3(times13(d)),
        times3(times9(a)),
        times14(c),
        times11(d),
        times13(a),
        times9(b),
        times14(d),
        times11(a),
        times13(b),
        times9(c),
    );
}

/// MixColumns and its inverse undo each other.
pub proof fn lemma_mix_inverse(inverse: bool, w: u32)
    ensures
        mix(!inverse, mix(inverse, w)) == w,
{
    let a = byte0(w);
    let b = byte1(w);
    let c = byte2(w);
    let d = byte3(w);
    lemma_mix_byte_inverse(a, b, c, d);
    lemma_mix_byte_inverse(b, c, d, a);
    lemma_mix_byte_inverse(c, d, a, b);
    lemma_mix_byte_inverse(d, a, b, c);
    if inverse {
        lemma_pack_bytes(
            inv_mix_byte(a, b, c, d),
            inv_mix_byte(b, c, d, a),
            inv_mix_byte(c, d, a, b),
            inv_mix_byte(d, a, b, c),
            w,
        );
    } else {
        lemma_pack_bytes(
            mix_byte(a, b, c, d),
            mix_byte(b, c, d, a),
            mix_byte(c, d, a, b),
            mix_byte(d, a, b, c),
            w,
        );
    }
}

/// Two sums of four terms, added up term by term.
proof fn lemma_pairwise(x1: u8, x2: u8, x3: u8, x4: u8, y1: u8, y2: u8, y3: u8, y4: u8)
    by (bit_vector)
    ensures
        (x1 ^ y1) ^ (x2 ^ y2) ^ (x3 ^ y3) ^ (x4 ^ y4) == (x1 ^ x2 ^ x3 ^ x4) ^ (y1 ^ y2 ^ y3 ^ y4),
{
}

proof fn lemma_mix_byte_linear(a: u8, b: u8, c: u8, d: u8, e: u8, f: u8, g: u8, h: u8)
    ensures
        mix_byte(a ^ e, b ^ f, c ^ g, d ^ h) == mix_byte(a, b, c, d) ^ mix_byte(e, f, g, h),
        inv_mix_byte(a ^ e, b ^ f, c ^ g, d ^ h) == inv_mix_byte(a, b, c, d) ^ inv_mix_byte(
            e,
            f,
            g,
            h,
        ),
{
    lemma_times_linear(a, e);
    lemma_times_linear(b, f);
    lemma_times_linear(c, g);
    lemma_times_linear(d, h);
    lemma_pairwise(xtime(a), times3(b), c, d, xtime(e), times3(f), g, h);
    lemma_pairwise(
        times14(a),
        times11(b),
        times13(c),
        times9(d),
        times14(e),
        times11(f),
        times13(g),
        times9(h),
    );
}

/// Taking a word apart and putting one together go through exclusive or.
proof fn lemma_bytes_linear(x: u32, y: u32, a: u8, b: u8, c: u8, d: u8, e: u8, f: u8, g: u8, h: u8)
    by (bit_vector)
    ensures
        byte0(x ^ y) == byte0(x) ^ byte0(y),
        byte1(x ^ y) == byte1(x) ^ byte1(y),
        byte2(x ^ y) == byte2(x) ^ byte2(y),
        byte3(x ^ y) == byte3(x) ^ byte3(y),
        pack(a ^ e, b ^ f, c ^ g, d ^ h) == pack(a, b, c, d) ^ pack(e, f, g, h),
{
}

/// MixColumns and its inverse are linear over exclusive or.
pub proof fn lemma_mix_linear(inverse: bool, x: u32, y: u32)
    ensures
        mix(inverse, x ^ y) == mix(inverse, x) ^ mix(inverse, y),
{
    let a = byte0(x);
    let b = byte1(x);
    let c = byte2(x);
    let d = byte3(x);
    let e = byte0(y);
    let f = byte1(y);
    let g = byte2(y);
    let h = byte3(y);
    lemma_mix_byte_linear(a, b, c, d, e, f, g, h);
    lemma_mix_byte_linear(b, c, d, a, f, g, h, e);
    lemma_mix_byte_linear(c, d, a, b, g, h, e, f);
    lemma_mix_byte_linear(d, a, b, c, h, e, f, g);
    if inverse {
        lemma_bytes_linear(
            x,
            y,
            inv_mix_byte(a, b, c, d),
            inv_mix_byte(b, c, d, a),
            inv_mix_byte(c, d, a, b),
            inv_mix_byte(d, a, b, c),
            inv_mix_byte(e, f, g, h),
            inv_mix_byte(f, g, h, e),
            inv_mix_byte(g, h, e, f),
            inv_mix_byte(h, e, f, g),
        );
    } else {
        lemma_bytes_linear(
            x,
            y,
            mix_byte(a, b, c, d),
            mix_byte(b, c, d, a),
            mix_byte(c, d, a, b),
            mix_byte(d, a, b, c),
            mix_byte(e, f, g, h),
            mix_byte(f, g, h, e),
            mix_byte(g, h, e, f),
            mix_byte(h, e, f, g),
        );
    }
}

} // verus!
