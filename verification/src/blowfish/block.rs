//! The Blowfish block transform: a Feistel network of sixteen rounds over a
//! P-array of 18 words and four S-boxes of 256 words.
use crate::mode::BlockTransform;
use crate::words::{byte0, byte1, byte2, byte3, bytes_of, wrapping_sum};
use vstd::prelude::*;

verus! {

/// The round function: the four bytes of `x` each look up one S-box; the
/// first two words are added, the third is mixed in by exclusive or, the
/// fourth is added. The additions wrap around at 32 bits.
pub open spec fn f_function(s: Seq<u32>, x: u32) -> u32 {
    wrapping_sum(
        wrapping_sum(s[byte0(x) as int], s[256 + byte1(x)]) ^ s[512 + byte2(x)],
        s[768 + byte3(x)],
    )
}

/// One round: the left half takes up a word of the P-array, the right half
/// takes up the round function of the new left half, and the halves change
/// sides.
pub open spec fn round(lr: (u32, u32), p: Seq<u32>, s: Seq<u32>, i: int) -> (u32, u32) {
    let l = lr.0 ^ p[i];
    (f_function(s, l) ^ lr.1, l)
}

/// The first `n` rounds, under the first `n` words of the P-array.
pub open spec fn rounds(lr: (u32, u32), p: Seq<u32>, s: Seq<u32>, n: nat) -> (u32, u32)
    decreases n,
{
    if n == 0 {
        lr
    } else {
        round(rounds(lr, p, s, (n - 1) as nat), p, s, n - 1)
    }
}

/// The block transform on the two halves: sixteen rounds, the last change of
/// sides undone, and the last two words of the P-array mixed in.
pub open spec fn crypt_pair(p: Seq<u32>, s: Seq<u32>, lr: (u32, u32)) -> (u32, u32) {
    let e = rounds(lr, p, s, 16);
    (e.1 ^ p[17], e.0 ^ p[16])
}

/// The P-array read from its last word to its first, as decryption takes it.
pub open spec fn backwards(p: Seq<u32>) -> Seq<u32> {
    Seq::new(18, |i: int| p[17 - i])
}

/// Encryption of a block of two words.
pub open spec fn encrypt_block(p: Seq<u32>, s: Seq<u32>, block: Seq<u32>) -> Seq<u32> {
    let out = crypt_pair(p, s, (block[0], block[1]));
    seq![out.0, out.1]
}

/// Decryption of a block: the same network with the P-array taken backwards.
pub open spec fn decrypt_block(p: Seq<u32>, s: Seq<u32>, block: Seq<u32>) -> Seq<u32> {
    let out = crypt_pair(backwards(p), s, (block[0], block[1]));
    seq![out.0, out.1]
}

/// Encryption under a key schedule, as a function on blocks.
pub open spec fn encryptor(p: Seq<u32>, s: Seq<u32>) -> spec_fn(Seq<u32>) -> Seq<u32> {
    |block: Seq<u32>| encrypt_block(p, s, block)
}

/// Decryption under a key schedule, as a function on blocks.
pub open spec fn decryptor(p: Seq<u32>, s: Seq<u32>) -> spec_fn(Seq<u32>) -> Seq<u32> {
    |block: Seq<u32>| decrypt_block(p, s, block)
}

fn F(s: &[u32], x: u32) -> (y: u32)
    requires
        s@.len() >= 1024,
    ensures
        y == f_function(s@, x),
{
    let (a, b, c, d) = bytes_of(x);
    let y: u32 = s[a as usize].wrapping_add(s[256 + b as usize]);
    let y: u32 = y ^ s[512 + c as usize];
    y.wrapping_add(s[768 + d as usize])
}

/// Encrypts the two halves of a block.
pub(crate) fn blowfishEncrypt(p: &[u32], s: &[u32], left: u32, right: u32) -> (out: (u32, u32))
    requires
        p@.len() >= 18,
        s@.len() >= 1024,
    ensures
        out == crypt_pair(p@, s@, (left, right)),
{
    let mut xl: u32 = left;
    let mut xr: u32 = right;
    let mut i: usize = 0;
    while i < 16
        invariant
            i <= 16,
            p@.len() >= 18,
            s@.len() >= 1024,
            (xl, xr) == rounds((left, right), p@, s@, i as nat),
        decreases 16 - i,
    {
        xl = xl ^ p[i];
        xr = F(s, xl) ^ xr;
        let t: u32 = xl;
        xl = xr;
        xr = t;
        i += 1;
    }
    (xr ^ p[17], xl ^ p[16])
}

/// Decrypts the two halves of a block.
pub(crate) fn blowfishDecrypt(p: &[u32], s: &[u32], left: u32, right: u32) -> (out: (u32, u32))
    requires
        p@.len() >= 18,
        s@.len() >= 1024,
    ensures
        out == crypt_pair(backwards(p@), s@, (left, right)),
{
    let mut xl: u32 = left;
    let mut xr: u32 = right;
    let mut i: usize = 17;
    while i > 1
        invariant
            1 <= i <= 17,
            p@.len() >= 18,
            s@.len() >= 1024,
            (xl, xr) == rounds((left, right), backwards(p@), s@, (17 - i) as nat),
        decreases i,
    {
        xl = xl ^ p[i];
        xr = F(s, xl) ^ xr;
        let t: u32 = xl;
        xl = xr;
        xr = t;
        i -= 1;
    }
    (xr ^ p[0], xl ^ p[1])
}

/// Blowfish encryption of blocks under a key schedule.
pub struct BlowfishForward<'a> {
    pub p: &'a [u32],
    pub s: &'a [u32],
}

impl<'a> BlockTransform for BlowfishForward<'a> {
    open spec fn block_words(&self) -> nat {
        2
    }

    open spec fn ready(&self) -> bool {
        self.p@.len() >= 18 && self.s@.len() >= 1024
    }

    open spec fn function(&self) -> spec_fn(Seq<u32>) -> Seq<u32> {
        encryptor(self.p@, self.s@)
    }

    fn block_len(&self) -> (n: usize) {
        2
    }

    fn transform(&self, block: &mut Vec<u32>) {
        let ghost before = block@;
        let out = blowfishEncrypt(self.p, self.s, block[0], block[1]);
        block[0] = out.0;
        block[1] = out.1;
        assert(block@ =~= encrypt_block(self.p@, self.s@, before));
    }
}

/// Blowfish decryption of blocks under a key schedule.
pub struct BlowfishInverse<'a> {
    pub p: &'a [u32],
    pub s: &'a [u32],
}

impl<'a> BlockTransform for BlowfishInverse<'a> {
    open spec fn block_words(&self) -> nat {
        2
    }

    open spec fn ready(&self) -> bool {
        self.p@.len() >= 18 && self.s@.len() >= 1024
    }

    open spec fn function(&self) -> spec_fn(Seq<u32>) -> Seq<u32> {
        decryptor(self.p@, self.s@)
    }

    fn block_len(&self) -> (n: usize) {
        2
    }

    fn transform(&self, block: &mut Vec<u32>) {
        let ghost before = block@;
        let out = blowfishDecrypt(self.p, self.s, block[0], block[1]);
        block[0] = out.0;
        block[1] = out.1;
        assert(block@ =~= decrypt_block(self.p@, self.s@, before));
    }
}

} // verus!
