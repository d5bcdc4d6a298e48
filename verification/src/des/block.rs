//! The DES block transform: the initial permutation as five exchanges of
//! masked bit groups between the two halves, sixteen Feistel rounds, and the
//! final permutation.
use crate::des::tables::SPBOX;
use crate::mode::BlockTransform;
use vstd::prelude::*;

verus! {

/// The half that an exchange shifts: its masked bit groups, `offset` bits up,
/// are swapped with those of the other half.
pub open spec fn exchange_high(offset: u32, mask: u32, a: u32, b: u32) -> u32 {
    a ^ ((((a >> offset) ^ b) & mask) << offset)
}

/// The half that an exchange masks in place.
pub open spec fn exchange_low(offset: u32, mask: u32, a: u32, b: u32) -> u32 {
    b ^ (((a >> offset) ^ b) & mask)
}

/// Swaps the masked bits of the right half with the bits `offset` places
/// higher in the left half.
pub open spec fn exchange_lr(offset: u32, mask: u32, lr: (u32, u32)) -> (u32, u32) {
    (exchange_high(offset, mask, lr.0, lr.1), exchange_low(offset, mask, lr.0, lr.1))
}

/// Swaps the masked bits of the left half with the bits `offset` places
/// higher in the right half.
pub open spec fn exchange_rl(offset: u32, mask: u32, lr: (u32, u32)) -> (u32, u32) {
    (exchange_low(offset, mask, lr.1, lr.0), exchange_high(offset, mask, lr.1, lr.0))
}

/// The initial permutation of the 64 bits of a block, as five exchanges.
pub open spec fn initial_permutation(lr: (u32, u32)) -> (u32, u32) {
    exchange_lr(
        1,
        0x55555555,
        exchange_rl(
            8,
            0x00ff00ff,
            exchange_rl(
                2,
                0x33333333,
                exchange_lr(16, 0x0000ffff, exchange_lr(4, 0x0f0f0f0f, lr)),
            ),
        ),
    )
}

/// The same five exchanges as the initial permutation, in reverse order.
pub open spec fn final_permutation(lr: (u32, u32)) -> (u32, u32) {
    exchange_lr(
        4,
        0x0f0f0f0f,
        exchange_lr(
            16,
            0x0000ffff,
            exchange_rl(
                2,
                0x33333333,
                exchange_rl(8, 0x00ff00ff, exchange_lr(1, 0x55555555, lr)),
            ),
        ),
    )
}

/// The six bits of `x` that feed S-box `i`: the window of the expanded half,
/// which overlaps its neighbours by one bit on each side and wraps around
/// the ends of the word for the first and the last box.
pub open spec fn selector(i: int, x: u32) -> u32 {
    if i == 0 {
        ((x << 5) | (x >> 27)) & 0x3f
    } else if i == 7 {
        ((x << 1) | (x >> 31)) & 0x3f
    } else {
        (x >> ((27 - 4 * i) as u32)) & 0x3f
    }
}

/// What S-box `i` contributes to the round function.
pub open spec fn feistel_part(r: u32, sk: Seq<u32>, round: int, i: int) -> u32 {
    SPBOX[64 * i + selector(i, r ^ sk[8 * round + i])]
}

/// The contributions of the first `n` S-boxes, combined.
pub open spec fn feistel_upto(r: u32, sk: Seq<u32>, round: int, n: nat) -> u32
    decreases n,
{
    if n == 0 {
        0
    } else {
        feistel_upto(r, sk, round, (n - 1) as nat) | feistel_part(r, sk, round, n - 1)
    }
}

/// The round function on the right half, under the subkey of a round.
pub open spec fn feistel(r: u32, sk: Seq<u32>, round: int) -> u32 {
    feistel_upto(r, sk, round, 8)
}

/// One Feistel round: the halves change sides, and the old left half takes
/// up the round function of the old right half.
pub open spec fn round(lr: (u32, u32), sk: Seq<u32>, n: int) -> (u32, u32) {
    (lr.1, lr.0 ^ feistel(lr.1, sk, n))
}

/// The first `n` rounds.
pub open spec fn rounds(lr: (u32, u32), sk: Seq<u32>, n: nat) -> (u32, u32)
    decreases n,
{
    if n == 0 {
        lr
    } else {
        round(rounds(lr, sk, (n - 1) as nat), sk, n - 1)
    }
}

/// The block transform on the two halves, under sixteen subkeys taken in the
/// order given: forward for encryption, reversed for decryption.
pub open spec fn crypt_pair(sk: Seq<u32>, lr: (u32, u32)) -> (u32, u32) {
    let s = rounds(initial_permutation(lr), sk, 16);
    final_permutation((s.1, s.0))
}

/// The block transform on a block of two words.
pub open spec fn crypt_block(sk: Seq<u32>, block: Seq<u32>) -> Seq<u32> {
    let out = crypt_pair(sk, (block[0], block[1]));
    seq![out.0, out.1]
}

/// One pass of DES under the given subkeys, as a function on blocks.
pub open spec fn pass(sk: Seq<u32>) -> spec_fn(Seq<u32>) -> Seq<u32> {
    |block: Seq<u32>| crypt_block(sk, block)
}

/// Three passes, one after the other.
pub open spec fn three_passes(first: Seq<u32>, second: Seq<u32>, third: Seq<u32>) -> spec_fn(
    Seq<u32>,
) -> Seq<u32> {
    |block: Seq<u32>| crypt_block(third, crypt_block(second, crypt_block(first, block)))
}

fn exchangeLR(offset: u32, mask: u32, l: u32, r: u32) -> (out: (u32, u32))
    requires
        offset < 32,
    ensures
        out == exchange_lr(offset, mask, (l, r)),
{
    let t: u32 = ((l >> offset) ^ r) & mask;
    (l ^ (t << offset), r ^ t)
}

fn exchangeRL(offset: u32, mask: u32, l: u32, r: u32) -> (out: (u32, u32))
    requires
        offset < 32,
    ensures
        out == exchange_rl(offset, mask, (l, r)),
{
    let t: u32 = ((r >> offset) ^ l) & mask;
    (l ^ t, r ^ (t << offset))
}

fn selector_index(i: usize, x: u32) -> (s: usize)
    requires
        i < 8,
    ensures
        s == selector(i as int, x),
        s < 64,
{
    let v: u32 = if i == 0 {
        (x << 5) | (x >> 27)
    } else if i == 7 {
        (x << 1) | (x >> 31)
    } else {
        x >> (27 - 4 * i as u32)
    };
    assert(v & 0x3f < 64) by (bit_vector);
    (v & 0x3f) as usize
}

fn feistel_value(r: u32, sk: &Vec<u32>, round: usize) -> (f: u32)
    requires
        sk@.len() == 128,
        round < 16,
    ensures
        f == feistel(r, sk@, round as int),
{
    let mut f: u32 = 0;
    let mut i: usize = 0;
    while i < 8
        invariant
            i <= 8,
            sk@.len() == 128,
            round < 16,
            f == feistel_upto(r, sk@, round as int, i as nat),
        decreases 8 - i,
    {
        f = f | SPBOX[64 * i + selector_index(i, r ^ sk[8 * round + i])];
        i += 1;
    }
    f
}

/// Transforms one block of two halves under sixteen subkeys.
pub(crate) fn doCryptBlock(sk: &Vec<u32>, l: u32, r: u32) -> (out: (u32, u32))
    requires
        sk@.len() == 128,
    ensures
        out == crypt_pair(sk@, (l, r)),
{
    let (l, r) = exchangeLR(4, 0x0f0f0f0f, l, r);
    let (l, r) = exchangeLR(16, 0x0000ffff, l, r);
    let (l, r) = exchangeRL(2, 0x33333333, l, r);
    let (l, r) = exchangeRL(8, 0x00ff00ff, l, r);
    let (l, r) = exchangeLR(1, 0x55555555, l, r);
    let ghost start = (l, r);
    let mut left: u32 = l;
    let mut right: u32 = r;
    let mut n: usize = 0;
    while n < 16
        invariant
            n <= 16,
            sk@.len() == 128,
            (left, right) == rounds(start, sk@, n as nat),
        decreases 16 - n,
    {
        let f: u32 = feistel_value(right, sk, n);
        let t: u32 = left;
        left = right;
        right = t ^ f;
        n += 1;
    }
    let (l, r) = exchangeLR(1, 0x55555555, right, left);
    let (l, r) = exchangeRL(8, 0x00ff00ff, l, r);
    let (l, r) = exchangeRL(2, 0x33333333, l, r);
    let (l, r) = exchangeLR(16, 0x0000ffff, l, r);
    exchangeLR(4, 0x0f0f0f0f, l, r)
}

/// One pass of DES under sixteen subkeys, taken in the order given.
pub struct DesPass<'a> {
    pub subkeys: &'a Vec<u32>,
}

impl<'a> BlockTransform for DesPass<'a> {
    open spec fn block_words(&self) -> nat {
        2
    }

    open spec fn ready(&self) -> bool {
        self.subkeys@.len() == 128
    }

    open spec fn function(&self) -> spec_fn(Seq<u32>) -> Seq<u32> {
        pass(self.subkeys@)
    }

    fn block_len(&self) -> (n: usize) {
        2
    }

    fn transform(&self, block: &mut Vec<u32>) {
        let out = doCryptBlock(self.subkeys, block[0], block[1]);
        let ghost before = block@;
        block[0] = out.0;
        block[1] = out.1;
        assert(block@ =~= crypt_block(self.subkeys@, before));
    }
}

/// Three passes of DES, one after the other, each under its own subkeys.
pub struct TripleDesPass<'a> {
    pub first: &'a Vec<u32>,
    pub second: &'a Vec<u32>,
    pub third: &'a Vec<u32>,
}

impl<'a> BlockTransform for TripleDesPass<'a> {
    open spec fn block_words(&self) -> nat {
        2
    }

    open spec fn ready(&self) -> bool {
        self.first@.len() == 128 && self.second@.len() == 128 && self.third@.len() == 128
    }

    open spec fn function(&self) -> spec_fn(Seq<u32>) -> Seq<u32> {
        three_passes(self.first@, self.second@, self.third@)
    }

    fn block_len(&self) -> (n: usize) {
        2
    }

    fn transform(&self, block: &mut Vec<u32>) {
        let ghost before = block@;
        let a = doCryptBlock(self.first, block[0], block[1]);
        let b = doCryptBlock(self.second, a.0, a.1);
        let c = doCryptBlock(self.third, b.0, b.1);
        block[0] = c.0;
        block[1] = c.1;
        assert(block@ =~= three_passes(self.first@, self.second@, self.third@)(before));
    }
}

} // verus!
