//! The complementation property of DES: with every bit of the key and of
//! the block turned over, every bit of the result is turned over.
use crate::des::block::{
    crypt_block, crypt_pair, exchange_high, exchange_low, exchange_lr, exchange_rl, feistel,
    feistel_part, feistel_upto, final_permutation, initial_permutation, round, rounds, selector,
};
use crate::des::schedule::{gather, key_bit, reversed, selector_word, subkey_bit, subkeys};
use crate::des::tables::{BIT_SHIFTS, PC1, PC2};
use vstd::prelude::*;

verus! {

/// The words with every bit turned over.
pub open spec fn complement(words: Seq<u32>) -> Seq<u32> {
    Seq::new(words.len(), |i: int| !words[i])
}

proof fn lemma_bit_turned(w: u32, s: u32)
    by (bit_vector)
    requires
        s < 32,
    ensures
        ((!w) >> s) & 1 == ((w >> s) & 1) ^ 1,
        (w >> s) & 1 <= 1,
{
}

proof fn lemma_key_bit_turned(key: Seq<u32>, pos: int)
    requires
        key.len() == 2,
        1 <= pos <= 64,
    ensures
        key_bit(complement(key), pos) == key_bit(key, pos) ^ 1,
        key_bit(key, pos) <= 1,
{
    let w = key[(pos - 1) / 32];
    let s = (31 - (pos - 1) % 32) as u32;
    lemma_bit_turned(w, s);
}

proof fn lemma_subkey_bit_turned(key: Seq<u32>, round: int, i: int)
    requires
        key.len() == 2,
        0 <= round < 16,
        0 <= i < 48,
    ensures
        subkey_bit(complement(key), round, i) == subkey_bit(key, round, i) ^ 1,
        subkey_bit(key, round, i) <= 1,
{
    let half: int = if i < 24 {
        0
    } else {
        28
    };
    let j = half + (PC2[i] as int - 1 + BIT_SHIFTS[round] as int) % 28;
    assert(0 <= j < 56);
    assert(1 <= PC1[j] <= 64);
    lemma_key_bit_turned(key, PC1[j] as int);
}

/// Taking up one more bit: where the bits gathered so far are turned over,
/// and the new bit is, the whole is.
proof fn lemma_gather_step(g: u32, b: u32, k: u32)
    by (bit_vector)
    requires
        1 <= k <= 6,
        b <= 1,
        g & (0xffffffffu32 >> ((k - 1) as u32)) == 0,
    ensures
        (g ^ !(0xffffffffu32 >> ((k - 1) as u32))) | ((b ^ 1) << ((32 - k) as u32)) == (g | (b << ((
        32 - k) as u32))) ^ !(0xffffffffu32 >> k),
        (g | (b << ((32 - k) as u32))) & (0xffffffffu32 >> k) == 0,
{
}

proof fn lemma_gather_start()
    by (bit_vector)
    ensures
        !(0xffffffffu32 >> 0u32) == 0u32,
        0u32 ^ !(0xffffffffu32 >> 0u32) == 0u32,
        0u32 & (0xffffffffu32 >> 0u32) == 0,
        !(0xffffffffu32 >> 6u32) == 0xfc000000u32,
{
}

proof fn lemma_gather_turned(key: Seq<u32>, round: int, group: int, k: nat)
    requires
        key.len() == 2,
        0 <= round < 16,
        0 <= group < 8,
        k <= 6,
    ensures
        gather(complement(key), round, group, k) == gather(key, round, group, k) ^ !(0xffffffffu32
            >> (k as u32)),
        gather(key, round, group, k) & (0xffffffffu32 >> (k as u32)) == 0,
    decreases k,
{
    if k == 0 {
        lemma_gather_start();
    } else {
        lemma_gather_turned(key, round, group, (k - 1) as nat);
        lemma_subkey_bit_turned(key, round, 6 * group + k - 1);
        lemma_gather_step(
            gather(key, round, group, (k - 1) as nat),
            subkey_bit(key, round, 6 * group + k - 1),
            k as u32,
        );
    }
}

/// The six bits that feed an S-box are the same when both the half and the
/// selector are turned over: for the first S-box, whose selector is turned
/// left by one bit, for the last, whose selector is turned left by five,
/// and for those between, whose selector is shifted right by `sh`.
proof fn lemma_selector_turned(r: u32, w: u32, sh: u32)
    by (bit_vector)
    requires
        3 <= sh <= 23,
    ensures
        ((((!r) ^ (((w ^ 0xfc000000u32) << 1u32) | ((w ^ 0xfc000000u32) >> 31u32))) << 5u32) | (((
        !r) ^ (((w ^ 0xfc000000u32) << 1u32) | ((w ^ 0xfc000000u32) >> 31u32))) >> 27u32)) & 0x3f
            == (((r ^ ((w << 1u32) | (w >> 31u32))) << 5u32) | ((r ^ ((w << 1u32) | (w >> 31u32)))
            >> 27u32)) & 0x3f,
        ((((!r) ^ (((w ^ 0xfc000000u32) << 5u32) | ((w ^ 0xfc000000u32) >> 27u32))) << 1u32) | (((
        !r) ^ (((w ^ 0xfc000000u32) << 5u32) | ((w ^ 0xfc000000u32) >> 27u32))) >> 31u32)) & 0x3f
            == (((r ^ ((w << 5u32) | (w >> 27u32))) << 1u32) | ((r ^ ((w << 5u32) | (w >> 27u32)))
            >> 31u32)) & 0x3f,
        (((!r) ^ ((w ^ 0xfc000000u32) >> sh)) >> ((26 - sh) as u32)) & 0x3f == ((r ^ (w >> sh))
            >> ((26 - sh) as u32)) & 0x3f,
{
}

proof fn lemma_part_turned(key: Seq<u32>, r: u32, round: int, i: int)
    requires
        key.len() == 2,
        0 <= round < 16,
        0 <= i < 8,
    ensures
        feistel_part(!r, subkeys(complement(key)), round, i) == feistel_part(
            r,
            subkeys(key),
            round,
            i,
        ),
{
    let w = gather(key, round, i, 6);
    lemma_gather_turned(key, round, i, 6);
    lemma_gather_start();
    assert(gather(complement(key), round, i, 6) == w ^ 0xfc000000u32);
    let sh: u32 = if 1 <= i <= 6 {
        (4 * (i - 1) + 3) as u32
    } else {
        3
    };
    lemma_selector_turned(r, w, sh);
    assert(subkeys(key)[8 * round + i] == selector_word(key, round, i));
    assert(subkeys(complement(key))[8 * round + i] == selector_word(complement(key), round, i));
    assert(selector(i, (!r) ^ selector_word(complement(key), round, i)) == selector(
        i,
        r ^ selector_word(key, round, i),
    ));
}

proof fn lemma_feistel_turned(key: Seq<u32>, r: u32, round: int, n: nat)
    requires
        key.len() == 2,
        0 <= round < 16,
        n <= 8,
    ensures
        feistel_upto(!r, subkeys(complement(key)), round, n) == feistel_upto(
            r,
            subkeys(key),
            round,
            n,
        ),
    decreases n,
{
    if n > 0 {
        lemma_feistel_turned(key, r, round, (n - 1) as nat);
        lemma_part_turned(key, r, round, n - 1);
    }
}

proof fn lemma_exchange_turned(a: u32, b: u32)
    by (bit_vector)
    ensures
        exchange_high(4, 0x0f0f0f0f, !a, !b) == !exchange_high(4, 0x0f0f0f0f, a, b),
        exchange_low(4, 0x0f0f0f0f, !a, !b) == !exchange_low(4, 0x0f0f0f0f, a, b),
        exchange_high(16, 0x0000ffff, !a, !b) == !exchange_high(16, 0x0000ffff, a, b),
        exchange_low(16, 0x0000ffff, !a, !b) == !exchange_low(16, 0x0000ffff, a, b),
        exchange_high(2, 0x33333333, !a, !b) == !exchange_high(2, 0x33333333, a, b),
        exchange_low(2, 0x33333333, !a, !b) == !exchange_low(2, 0x33333333, a, b),
        exchange_high(8, 0x00ff00ff, !a, !b) == !exchange_high(8, 0x00ff00ff, a, b),
        exchange_low(8, 0x00ff00ff, !a, !b) == !exchange_low(8, 0x00ff00ff, a, b),
        exchange_high(1, 0x55555555, !a, !b) == !exchange_high(1, 0x55555555, a, b),
        exchange_low(1, 0x55555555, !a, !b) == !exchange_low(1, 0x55555555, a, b),
{
}

/// A pair with every bit turned over.
pub open spec fn turned(lr: (u32, u32)) -> (u32, u32) {
    (!lr.0, !lr.1)
}

proof fn lemma_exchanges_turned(lr: (u32, u32))
    ensures
        exchange_lr(4, 0x0f0f0f0f, turned(lr)) == turned(exchange_lr(4, 0x0f0f0f0f, lr)),
        exchange_lr(16, 0x0000ffff, turned(lr)) == turned(exchange_lr(16, 0x0000ffff, lr)),
        exchange_rl(2, 0x33333333, turned(lr)) == turned(exchange_rl(2, 0x33333333, lr)),
        exchange_rl(8, 0x00ff00ff, turned(lr)) == turned(exchange_rl(8, 0x00ff00ff, lr)),
        exchange_lr(1, 0x55555555, turned(lr)) == turned(exchange_lr(1, 0x55555555, lr)),
{
    lemma_exchange_turned(lr.0, lr.1);
    lemma_exchange_turned(lr.1, lr.0);
}

proof fn lemma_permutations_turned(lr: (u32, u32))
    ensures
        initial_permutation(turned(lr)) == turned(initial_permutation(lr)),
        final_permutation(turned(lr)) == turned(final_permutation(lr)),
{
    let a = exchange_lr(4, 0x0f0f0f0f, lr);
    let b = exchange_lr(16, 0x0000ffff, a);
    let c = exchange_rl(2, 0x33333333, b);
    let d = exchange_rl(8, 0x00ff00ff, c);
    lemma_exchanges_turned(lr);
    lemma_exchanges_turned(a);
    lemma_exchanges_turned(b);
    lemma_exchanges_turned(c);
    lemma_exchanges_turned(d);
    let p = exchange_lr(1, 0x55555555, lr);
    let q = exchange_rl(8, 0x00ff00ff, p);
    let r = exchange_rl(2, 0x33333333, q);
    let s = exchange_lr(16, 0x0000ffff, r);
    lemma_exchanges_turned(p);
    lemma_exchanges_turned(q);
    lemma_exchanges_turned(r);
    lemma_exchanges_turned(s);
}

proof fn lemma_xor_turned(l: u32, f: u32)
    by (bit_vector)
    ensures
        (!l) ^ f == !(l ^ f),
{
}

proof fn lemma_rounds_turned(key: Seq<u32>, lr: (u32, u32), n: nat)
    requires
        key.len() == 2,
        n <= 16,
    ensures
        rounds(turned(lr), subkeys(complement(key)), n) == turned(rounds(lr, subkeys(key), n)),
    decreases n,
{
    if n > 0 {
        lemma_rounds_turned(key, lr, (n - 1) as nat);
        let before = rounds(lr, subkeys(key), (n - 1) as nat);
        lemma_feistel_turned(key, before.1, n - 1, 8);
        lemma_xor_turned(before.0, feistel(before.1, subkeys(key), n - 1));
    }
}

/// Complementation, on the two halves of a block: encryption under the
/// complemented key of the complemented block gives the complement of what
/// encryption under the key gives of the block.
pub proof fn lemma_pair_complement(key: Seq<u32>, lr: (u32, u32))
    requires
        key.len() == 2,
    ensures
        crypt_pair(subkeys(complement(key)), turned(lr)) == turned(crypt_pair(subkeys(key), lr)),
{
    lemma_permutations_turned(lr);
    let start = initial_permutation(lr);
    lemma_rounds_turned(key, start, 16);
    let s = rounds(start, subkeys(key), 16);
    lemma_permutations_turned((s.1, s.0));
}

/// Complementation, on blocks, for encryption and for decryption.
pub proof fn lemma_block_complement(key: Seq<u32>, block: Seq<u32>)
    requires
        key.len() == 2,
        block.len() == 2,
    ensures
        crypt_block(subkeys(complement(key)), complement(block)) == complement(
            crypt_block(subkeys(key), block),
        ),
        crypt_block(reversed(subkeys(complement(key))), complement(block)) == complement(
            crypt_block(reversed(subkeys(key)), block),
        ),
{
    lemma_pair_complement(key, (block[0], block[1]));
    assert(crypt_block(subkeys(complement(key)), complement(block)) =~= complement(
        crypt_block(subkeys(key), block),
    ));
    let sealed = crypt_block(reversed(subkeys(key)), block);
    crate::des::laws::lemma_block_round_trip(subkeys(key), block);
    crate::des::laws::lemma_block_round_trip(subkeys(key), sealed);
    crate::des::laws::lemma_block_round_trip(subkeys(complement(key)), complement(sealed));
    lemma_pair_complement(key, (sealed[0], sealed[1]));
    assert(crypt_block(subkeys(complement(key)), complement(sealed)) =~= complement(block));
}

} // verus!
