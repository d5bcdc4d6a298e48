//! The tables of AES: the S-box and its inverse, the round constants, and
//! the combined tables that do substitution and column mixing in one
//! lookup.
use crate::words::{byte0, byte1, byte2, byte3, bytes_of, pack, word_of};
use vstd::prelude::*;

verus! {

/// The S-box: the inverse in GF(2^8), followed by the affine map.
pub const SBOX: [u8; 256] = [
    0x63, 0x7c, 0x77, 0x7b, 0xf2, 0x6b, 0x6f, 0xc5, 0x30, 0x01, 0x67, 0x2b, 0xfe, 0xd7, 0xab, 0x76,
    0xca, 0x82, 0xc9, 0x7d, 0xfa, 0x59, 0x47, 0xf0, 0xad, 0xd4, 0xa2, 0xaf, 0x9c, 0xa4, 0x72, 0xc0,
    0xb7, 0xfd, 0x93, 0x26, 0x36, 0x3f, 0xf7, 0xcc, 0x34, 0xa5, 0xe5, 0xf1, 0x71, 0xd8, 0x31, 0x15,
    0x04, 0xc7, 0x23, 0xc3, 0x18, 0x96, 0x05, 0x9a, 0x07, 0x12, 0x80, 0xe2, 0xeb, 0x27, 0xb2, 0x75,
    0x09, 0x83, 0x2c, 0x1a, 0x1b, 0x6e, 0x5a, 0xa0, 0x52, 0x3b, 0xd6, 0xb3, 0x29, 0xe3, 0x2f, 0x84,
    0x53, 0xd1, 0x00, 0xed, 0x20, 0xfc, 0xb1, 0x5b, 0x6a, 0xcb, 0xbe, 0x39, 0x4a, 0x4c, 0x58, 0xcf,
    0xd0, 0xef, 0xaa, 0xfb, 0x43, 0x4d, 0x33, 0x85, 0x45, 0xf9, 0x02, 0x7f, 0x50, 0x3c, 0x9f, 0xa8,
    0x51, 0xa3, 0x40, 0x8f, 0x92, 0x9d, 0x38, 0xf5, 0xbc, 0xb6, 0xda, 0x21, 0x10, 0xff, 0xf3, 0xd2,
    0xcd, 0x0c, 0x13, 0xec, 0x5f, 0x97, 0x44, 0x17, 0xc4, 0xa7, 0x7e, 0x3d, 0x64, 0x5d, 0x19, 0x73,
    0x60, 0x81, 0x4f, 0xdc, 0x22, 0x2a, 0x90, 0x88, 0x46, 0xee, 0xb8, 0x14, 0xde, 0x5e, 0x0b, 0xdb,
    0xe0, 0x32, 0x3a, 0x0a, 0x49, 0x06, 0x24, 0x5c, 0xc2, 0xd3, 0xac, 0x62, 0x91, 0x95, 0xe4, 0x79,
    0xe7, 0xc8, 0x37, 0x6d, 0x8d, 0xd5, 0x4e, 0xa9, 0x6c, 0x56, 0xf4, 0xea, 0x65, 0x7a, 0xae, 0x08,
    0xba, 0x78, 0x25, 0x2e, 0x1c, 0xa6, 0xb4, 0xc6, 0xe8, 0xdd, 0x74, 0x1f, 0x4b, 0xbd, 0x8b, 0x8a,
    0x70, 0x3e, 0xb5, 0x66, 0x48, 0x03, 0xf6, 0x0e, 0x61, 0x35, 0x57, 0xb9, 0x86, 0xc1, 0x1d, 0x9e,
    0xe1, 0xf8, 0x98, 0x11, 0x69, 0xd9, 0x8e, 0x94, 0x9b, 0x1e, 0x87, 0xe9, 0xce, 0x55, 0x28, 0xdf,
    0x8c, 0xa1, 0x89, 0x0d, 0xbf, 0xe6, 0x42, 0x68, 0x41, 0x99, 0x2d, 0x0f, 0xb0, 0x54, 0xbb, 0x16,
];

/// The inverse of the S-box.
pub const INV_SBOX: [u8; 256] = [
    0x52, 0x09, 0x6a, 0xd5, 0x30, 0x36, 0xa5, 0x38, 0xbf, 0x40, 0xa3, 0x9e, 0x81, 0xf3, 0xd7, 0xfb,
    0x7c, 0xe3, 0x39, 0x82, 0x9b, 0x2f, 0xff, 0x87, 0x34, 0x8e, 0x43, 0x44, 0xc4, 0xde, 0xe9, 0xcb,
    0x54, 0x7b, 0x94, 0x32, 0xa6, 0xc2, 0x23, 0x3d, 0xee, 0x4c, 0x95, 0x0b, 0x42, 0xfa, 0xc3, 0x4e,
    0x08, 0x2e, 0xa1, 0x66, 0x28, 0xd9, 0x24, 0xb2, 0x76, 0x5b, 0xa2, 0x49, 0x6d, 0x8b, 0xd1, 0x25,
    0x72, 0xf8, 0xf6, 0x64, 0x86, 0x68, 0x98, 0x16, 0xd4, 0xa4, 0x5c, 0xcc, 0x5d, 0x65, 0xb6, 0x92,
    0x6c, 0x70, 0x48, 0x50, 0xfd, 0xed, 0xb9, 0xda, 0x5e, 0x15, 0x46, 0x57, 0xa7, 0x8d, 0x9d, 0x84,
    0x90, 0xd8, 0xab, 0x00, 0x8c, 0xbc, 0xd3, 0x0a, 0xf7, 0xe4, 0x58, 0x05, 0xb8, 0xb3, 0x45, 0x06,
    0xd0, 0x2c, 0x1e, 0x8f, 0xca, 0x3f, 0x0f, 0x02, 0xc1, 0xaf, 0xbd, 0x03, 0x01, 0x13, 0x8a, 0x6b,
    0x3a, 0x91, 0x11, 0x41, 0x4f, 0x67, 0xdc, 0xea, 0x97, 0xf2, 0xcf, 0xce, 0xf0, 0xb4, 0xe6, 0x73,
    0x96, 0xac, 0x74, 0x22, 0xe7, 0xad, 0x35, 0x85, 0xe2, 0xf9, 0x37, 0xe8, 0x1c, 0x75, 0xdf, 0x6e,
    0x47, 0xf1, 0x1a, 0x71, 0x1d, 0x29, 0xc5, 0x89, 0x6f, 0xb7, 0x62, 0x0e, 0xaa, 0x18, 0xbe, 0x1b,
    0xfc, 0x56, 0x3e, 0x4b, 0xc6, 0xd2, 0x79, 0x20, 0x9a, 0xdb, 0xc0, 0xfe, 0x78, 0xcd, 0x5a, 0xf4,
    0x1f, 0xdd, 0xa8, 0x33, 0x88, 0x07, 0xc7, 0x31, 0xb1, 0x12, 0x10, 0x59, 0x27, 0x80, 0xec, 0x5f,
    0x60, 0x51, 0x7f, 0xa9, 0x19, 0xb5, 0x4a, 0x0d, 0x2d, 0xe5, 0x7a, 0x9f, 0x93, 0xc9, 0x9c, 0xef,
    0xa0, 0xe0, 0x3b, 0x4d, 0xae, 0x2a, 0xf5, 0xb0, 0xc8, 0xeb, 0xbb, 0x3c, 0x83, 0x53, 0x99, 0x61,
    0x17, 0x2b, 0x04, 0x7e, 0xba, 0x77, 0xd6, 0x26, 0xe1, 0x69, 0x14, 0x63, 0x55, 0x21, 0x0c, 0x7d,
];

/// The round constants of the key expansion: entry `i` is `x^(i - 1)` in
/// GF(2^8); entry 0 is not used.
pub const RCON: [u8; 11] = [
    0x00, 0x01, 0x02, 0x04, 0x08, 0x10, 0x20, 0x40, 0x80, 0x1b, 0x36,
];

/// The S-box, or its inverse, on one byte.
#[verifier::opaque]
pub open spec fn sub_byte(inverse: bool, x: u8) -> u8 {
    if inverse {
        INV_SBOX[x as int]
    } else {
        SBOX[x as int]
    }
}

/// The round constant of step `i` of the key expansion, in the most
/// significant byte of a word.
pub open spec fn round_constant(i: int) -> u32 {
    (RCON[i] as u32) << 24
}

/// Multiplication by `x` in GF(2^8), modulo `x^8 + x^4 + x^3 + x + 1`.
pub open spec fn xtime(b: u8) -> u8 {
    if b & 0x80 == 0x80 {
        (b << 1) ^ 0x1b
    } else {
        b << 1
    }
}

/// Multiplication by 3 in GF(2^8).
pub open spec fn times3(b: u8) -> u8 {
    xtime(b) ^ b
}

/// Multiplication by 9 in GF(2^8).
pub open spec fn times9(b: u8) -> u8 {
    xtime(xtime(xtime(b))) ^ b
}

/// Multiplication by 11 in GF(2^8).
pub open spec fn times11(b: u8) -> u8 {
    xtime(xtime(xtime(b))) ^ xtime(b) ^ b
}

/// Multiplication by 13 in GF(2^8).
pub open spec fn times13(b: u8) -> u8 {
    xtime(xtime(xtime(b))) ^ xtime(xtime(b)) ^ b
}

/// Multiplication by 14 in GF(2^8).
pub open spec fn times14(b: u8) -> u8 {
    xtime(xtime(xtime(b))) ^ xtime(xtime(b)) ^ xtime(b)
}

/// One byte of a mixed column: twice the byte in its own row, three times
/// the next, and the two after that as they are.
pub open spec fn mix_byte(a: u8, b: u8, c: u8, d: u8) -> u8 {
    xtime(a) ^ times3(b) ^ c ^ d
}

/// One byte of an inversely mixed column: 14 times the byte in its own row,
/// 11 times the next, 13 times the one after and 9 times the last.
pub open spec fn inv_mix_byte(a: u8, b: u8, c: u8, d: u8) -> u8 {
    times14(a) ^ times11(b) ^ times13(c) ^ times9(d)
}

/// MixColumns on one column: the column, read as a polynomial over GF(2^8)
/// whose constant term is the most significant byte, times
/// `3x^3 + x^2 + x + 2` modulo `x^4 + 1`. Every row takes the same
/// combination of the bytes, turned by one place.
pub open spec fn mix_column(w: u32) -> u32 {
    let a = byte0(w);
    let b = byte1(w);
    let c = byte2(w);
    let d = byte3(w);
    pack(mix_byte(a, b, c, d), mix_byte(b, c, d, a), mix_byte(c, d, a, b), mix_byte(d, a, b, c))
}

/// InvMixColumns on one column: times `11x^3 + 13x^2 + 9x + 14`.
pub open spec fn inv_mix_column(w: u32) -> u32 {
    let a = byte0(w);
    let b = byte1(w);
    let c = byte2(w);
    let d = byte3(w);
    pack(
        inv_mix_byte(a, b, c, d),
        inv_mix_byte(b, c, d, a),
        inv_mix_byte(c, d, a, b),
        inv_mix_byte(d, a, b, c),
    )
}

/// MixColumns, or its inverse, on one column.
pub open spec fn mix(inverse: bool, w: u32) -> u32 {
    if inverse {
        inv_mix_column(w)
    } else {
        mix_column(w)
    }
}

/// The word that holds byte `b` in place `k` (0 the most significant) and
/// zeros elsewhere.
pub open spec fn place(k: int, b: u8) -> u32 {
    if k == 0 {
        pack(b, 0, 0, 0)
    } else if k == 1 {
        pack(0, b, 0, 0)
    } else if k == 2 {
        pack(0, 0, b, 0)
    } else {
        pack(0, 0, 0, b)
    }
}

/// Entry `x` of the combined table for byte place `k`: what the byte `x` in
/// that place contributes to a column after substitution and mixing.
pub open spec fn table_entry(inverse: bool, k: int, x: u8) -> u32 {
    mix(inverse, place(k, sub_byte(inverse, x)))
}

/// The S-box and its inverse undo each other.
pub proof fn lemma_sub_byte_inverse(inverse: bool, x: u8)
    ensures
        sub_byte(!inverse, sub_byte(inverse, x)) == x,
{
    reveal(sub_byte);
}

/// A mixed column is the sum of what its four bytes contribute.
pub proof fn lemma_mix_by_bytes(a: u8, b: u8, c: u8, d: u8)
    by (bit_vector)
    ensures
        mix_column(pack(a, 0, 0, 0)) ^ mix_column(pack(0, b, 0, 0)) ^ mix_column(pack(0, 0, c, 0))
            ^ mix_column(pack(0, 0, 0, d)) == mix_column(pack(a, b, c, d)),
        inv_mix_column(pack(a, 0, 0, 0)) ^ inv_mix_column(pack(0, b, 0, 0)) ^ inv_mix_column(
            pack(0, 0, c, 0),
        ) ^ inv_mix_column(pack(0, 0, 0, d)) == inv_mix_column(pack(a, b, c, d)),
{
}

/// The S-box, or its inverse, on one byte.
pub(crate) fn substitute(inverse: bool, x: u8) -> (y: u8)
    ensures
        y == sub_byte(inverse, x),
{
    reveal(sub_byte);
    if inverse {
        INV_SBOX[x as usize]
    } else {
        SBOX[x as usize]
    }
}

fn double(b: u8) -> (r: u8)
    ensures
        r == xtime(b),
{
    if b & 0x80 == 0x80 {
        (b << 1) ^ 0x1b
    } else {
        b << 1
    }
}

fn triple(b: u8) -> (r: u8)
    ensures
        r == times3(b),
{
    double(b) ^ b
}

fn inv_mix_one(a: u8, b: u8, c: u8, d: u8) -> (r: u8)
    ensures
        r == inv_mix_byte(a, b, c, d),
{
    let a2 = double(a);
    let a4 = double(a2);
    let a8 = double(a4);
    let b2 = double(b);
    let b8 = double(double(b2));
    let c4 = double(double(c));
    let c8 = double(c4);
    let d8 = double(double(double(d)));
    (a8 ^ a4 ^ a2) ^ (b8 ^ b2 ^ b) ^ (c8 ^ c4 ^ c) ^ (d8 ^ d)
}

/// MixColumns, or its inverse, on one column.
pub(crate) fn mix_word(inverse: bool, w: u32) -> (r: u32)
    ensures
        r == mix(inverse, w),
{
    let (a, b, c, d) = bytes_of(w);
    if inverse {
        word_of(
            inv_mix_one(a, b, c, d),
            inv_mix_one(b, c, d, a),
            inv_mix_one(c, d, a, b),
            inv_mix_one(d, a, b, c),
        )
    } else {
        word_of(
            double(a) ^ triple(b) ^ c ^ d,
            double(b) ^ triple(c) ^ d ^ a,
            double(c) ^ triple(d) ^ a ^ b,
            double(d) ^ triple(a) ^ b ^ c,
        )
    }
}

/// The four combined tables of the cipher, or of the inverse cipher, one
/// after the other: the table for byte place `k` starts at `256 * k`.
pub open spec fn combined_tables(inverse: bool) -> Seq<u32> {
    Seq::new(1024, |i: int| table_entry(inverse, i / 256, (i % 256) as u8))
}

/// The combined tables, computed once and then only read: four for
/// encryption and four for decryption, 256 words each.
pub struct AesTables {
    sub_mix: Vec<u32>,
    inv_sub_mix: Vec<u32>,
}

impl AesTables {
    /// The words that the engine holds for the cipher, or for the inverse
    /// cipher.
    pub closed spec fn tables(&self, inverse: bool) -> Seq<u32> {
        if inverse {
            self.inv_sub_mix@
        } else {
            self.sub_mix@
        }
    }

    /// Every entry is what `table_entry` says.
    #[verifier::type_invariant]
    spec fn wf(&self) -> bool {
        &&& self.tables(false) == combined_tables(false)
        &&& self.tables(true) == combined_tables(true)
    }

    fn build(inverse: bool) -> (t: Vec<u32>)
        ensures
            t@.len() == 1024,
            forall|i: int|
                0 <= i < 1024 ==> t@[i] == table_entry(inverse, i / 256, (i % 256) as u8),
    {
        let mut t: Vec<u32> = Vec::new();
        let mut i: usize = 0;
        while i < 1024
            invariant
                i <= 1024,
                t@.len() == i,
                forall|j: int|
                    0 <= j < i ==> t@[j] == table_entry(inverse, j / 256, (j % 256) as u8),
            decreases 1024 - i,
        {
            let k: usize = i / 256;
            let s: u8 = substitute(inverse, (i % 256) as u8);
            let w: u32 = if k == 0 {
                word_of(s, 0, 0, 0)
            } else if k == 1 {
                word_of(0, s, 0, 0)
            } else if k == 2 {
                word_of(0, 0, s, 0)
            } else {
                word_of(0, 0, 0, s)
            };
            t.push(mix_word(inverse, w));
            i += 1;
        }
        t
    }

    /// Computes the tables: every entry is what `table_entry` says.
    pub fn new() -> (t: Self)
        ensures
            t.tables(false) == combined_tables(false),
            t.tables(true) == combined_tables(true),
    {
        let sub_mix = Self::build(false);
        let inv_sub_mix = Self::build(true);
        assert(sub_mix@ =~= combined_tables(false));
        assert(inv_sub_mix@ =~= combined_tables(true));
        AesTables { sub_mix, inv_sub_mix }
    }

    /// Entry `x` of the combined table for byte place `k`.
    pub(crate) fn entry(&self, inverse: bool, k: usize, x: u8) -> (w: u32)
        requires
            k < 4,
        ensures
            w == table_entry(inverse, k as int, x),
    {
        proof {
            use_type_invariant(self);
        }
        if inverse {
            self.inv_sub_mix[256 * k + x as usize]
        } else {
            self.sub_mix[256 * k + x as usize]
        }
    }
}

} // verus!
