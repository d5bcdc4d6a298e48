//! What holds of the DES block transform whatever the key: the two
//! permutations undo each other, and a pass under the reversed subkeys undoes
//! a pass under the subkeys.
use crate::des::block::{
    crypt_block, crypt_pair, exchange_high, exchange_low, exchange_lr, exchange_rl, feistel,
    feistel_part, feistel_upto, final_permutation, initial_permutation, pass, round, rounds,
    three_passes,
};
use crate::des::schedule::{reversed, subkeys};
use crate::des::{decryptor, encryptor, triple_decryptor, triple_encryptor};
use crate::mode::{pick, run, Direction, Mode};
use crate::mode_laws::{
    fits, keeps_length, lemma_round_trip_in_place, lemma_undone_is_one_to_one, one_to_one, undoes,
};
use crate::words::lemma_xor_cancel;
use vstd::prelude::*;

verus! {

proof fn lemma_exchange_twice(a: u32, b: u32)
    by (bit_vector)
    ensures
        exchange_high(
            4,
            0x0f0f0f0f,
            exchange_high(4, 0x0f0f0f0f, a, b),
            exchange_low(4, 0x0f0f0f0f, a, b),
        ) == a,
        exchange_low(
            4,
            0x0f0f0f0f,
            exchange_high(4, 0x0f0f0f0f, a, b),
            exchange_low(4, 0x0f0f0f0f, a, b),
        ) == b,
        exchange_high(
            16,
            0x0000ffff,
            exchange_high(16, 0x0000ffff, a, b),
            exchange_low(16, 0x0000ffff, a, b),
        ) == a,
        exchange_low(
            16,
            0x0000ffff,
            exchange_high(16, 0x0000ffff, a, b),
            exchange_low(16, 0x0000ffff, a, b),
        ) == b,
        exchange_high(
            2,
            0x33333333,
            exchange_high(2, 0x33333333, a, b),
            exchange_low(2, 0x33333333, a, b),
        ) == a,
        exchange_low(
            2,
            0x33333333,
            exchange_high(2, 0x33333333, a, b),
            exchange_low(2, 0x33333333, a, b),
        ) == b,
        exchange_high(
            8,
            0x00ff00ff,
            exchange_high(8, 0x00ff00ff, a, b),
            exchange_low(8, 0x00ff00ff, a, b),
        ) == a,
        exchange_low(
            8,
            0x00ff00ff,
            exchange_high(8, 0x00ff00ff, a, b),
            exchange_low(8, 0x00ff00ff, a, b),
        ) == b,
        exchange_high(
            1,
            0x55555555,
            exchange_high(1, 0x55555555, a, b),
            exchange_low(1, 0x55555555, a, b),
        ) == a,
        exchange_low(
            1,
            0x55555555,
            exchange_high(1, 0x55555555, a, b),
            exchange_low(1, 0x55555555, a, b),
        ) == b,
{
}

/// Each of the five exchanges is its own inverse.
proof fn lemma_exchange_undoes_itself(lr: (u32, u32))
    ensures
        exchange_lr(4, 0x0f0f0f0f, exchange_lr(4, 0x0f0f0f0f, lr)) == lr,
        exchange_lr(16, 0x0000ffff, exchange_lr(16, 0x0000ffff, lr)) == lr,
        exchange_rl(2, 0x33333333, exchange_rl(2, 0x33333333, lr)) == lr,
        exchange_rl(8, 0x00ff00ff, exchange_rl(8, 0x00ff00ff, lr)) == lr,
        exchange_lr(1, 0x55555555, exchange_lr(1, 0x55555555, lr)) == lr,
{
    lemma_exchange_twice(lr.0, lr.1);
    lemma_exchange_twice(lr.1, lr.0);
}

/// The final permutation undoes the initial permutation, and the other way
/// round.
pub proof fn lemma_permutations_inverse(lr: (u32, u32))
    ensures
        final_permutation(initial_permutation(lr)) == lr,
        initial_permutation(final_permutation(lr)) == lr,
{
    let a = exchange_lr(4, 0x0f0f0f0f, lr);
    let b = exchange_lr(16, 0x0000ffff, a);
    let c = exchange_rl(2, 0x33333333, b);
    let d = exchange_rl(8, 0x00ff00ff, c);
    lemma_exchange_undoes_itself(d);
    lemma_exchange_undoes_itself(c);
    lemma_exchange_undoes_itself(b);
    lemma_exchange_undoes_itself(a);
    lemma_exchange_undoes_itself(lr);
    let p = exchange_lr(1, 0x55555555, lr);
    let q = exchange_rl(8, 0x00ff00ff, p);
    let r = exchange_rl(2, 0x33333333, q);
    let s = exchange_lr(16, 0x0000ffff, r);
    lemma_exchange_undoes_itself(s);
    lemma_exchange_undoes_itself(r);
    lemma_exchange_undoes_itself(q);
    lemma_exchange_undoes_itself(p);
}

proof fn lemma_feistel_upto_reversed(r: u32, sk: Seq<u32>, j: int, n: nat)
    requires
        sk.len() == 128,
        0 <= j < 16,
        n <= 8,
    ensures
        feistel_upto(r, reversed(sk), j, n) == feistel_upto(r, sk, 15 - j, n),
    decreases n,
{
    if n > 0 {
        lemma_feistel_upto_reversed(r, sk, j, (n - 1) as nat);
        let i = n - 1;
        assert(reversed(sk)[8 * j + i] == sk[8 * (15 - j) + i]);
        assert(feistel_part(r, reversed(sk), j, i) == feistel_part(r, sk, 15 - j, i));
    }
}

/// Round `j` under the reversed subkeys applies the round function of round
/// `15 - j`.
proof fn lemma_feistel_reversed(r: u32, sk: Seq<u32>, j: int)
    requires
        sk.len() == 128,
        0 <= j < 16,
    ensures
        feistel(r, reversed(sk), j) == feistel(r, sk, 15 - j),
{
    lemma_feistel_upto_reversed(r, sk, j, 8);
}

/// Taking the subkeys from the last round backwards, on the two halves
/// swapped, walks the rounds back one by one.
proof fn lemma_rounds_undo(start: (u32, u32), sk: Seq<u32>, j: nat)
    requires
        sk.len() == 128,
        j <= 16,
    ensures
        ({
            let done = rounds(start, sk, 16);
            let back = rounds(start, sk, (16 - j) as nat);
            rounds((done.1, done.0), reversed(sk), j) == (back.1, back.0)
        }),
    decreases j,
{
    if j > 0 {
        lemma_rounds_undo(start, sk, (j - 1) as nat);
        let done = rounds(start, sk, 16);
        let prev = rounds(start, sk, (16 - j) as nat);
        let cur = rounds(start, sk, (16 - j + 1) as nat);
        assert(cur == round(prev, sk, 16 - j));
        let f = feistel(prev.1, sk, 16 - j);
        lemma_feistel_reversed(prev.1, sk, j - 1);
        lemma_xor_cancel(prev.0, f);
        assert(rounds((done.1, done.0), reversed(sk), (j - 1) as nat) == (cur.1, cur.0));
        assert(round((cur.1, cur.0), reversed(sk), j - 1) == (prev.1, prev.0));
    }
}

proof fn lemma_reversed_twice(sk: Seq<u32>)
    requires
        sk.len() == 128,
    ensures
        reversed(reversed(sk)) == sk,
{
    assert(reversed(reversed(sk)) =~= sk);
}

/// A pass under the reversed subkeys undoes a pass under the subkeys.
pub proof fn lemma_pair_round_trip(sk: Seq<u32>, lr: (u32, u32))
    requires
        sk.len() == 128,
    ensures
        crypt_pair(reversed(sk), crypt_pair(sk, lr)) == lr,
        crypt_pair(sk, crypt_pair(reversed(sk), lr)) == lr,
{
    lemma_half_round_trip(sk, lr);
    lemma_reversed_twice(sk);
    lemma_half_round_trip(reversed(sk), lr);
}

proof fn lemma_half_round_trip(sk: Seq<u32>, lr: (u32, u32))
    requires
        sk.len() == 128,
    ensures
        crypt_pair(reversed(sk), crypt_pair(sk, lr)) == lr,
{
    let start = initial_permutation(lr);
    let done = rounds(start, sk, 16);
    lemma_permutations_inverse((done.1, done.0));
    lemma_rounds_undo(start, sk, 16);
    assert(rounds(start, sk, 0) == start);
    lemma_permutations_inverse(lr);
}

/// On blocks: decryption undoes encryption, and encryption undoes
/// decryption, so both are one-to-one.
pub proof fn lemma_block_round_trip(sk: Seq<u32>, block: Seq<u32>)
    requires
        sk.len() == 128,
        block.len() == 2,
    ensures
        crypt_block(sk, block).len() == 2,
        crypt_block(reversed(sk), crypt_block(sk, block)) == block,
        crypt_block(sk, crypt_block(reversed(sk), block)) == block,
{
    lemma_pair_round_trip(sk, (block[0], block[1]));
    assert(crypt_block(reversed(sk), crypt_block(sk, block)) =~= block);
    assert(crypt_block(sk, crypt_block(reversed(sk), block)) =~= block);
}

/// Encrypt-decrypt-encrypt under one and the same key is a single
/// encryption, and decrypt-encrypt-decrypt a single decryption.
pub proof fn lemma_three_passes_collapse(sk: Seq<u32>)
    requires
        sk.len() == 128,
    ensures
        three_passes(sk, reversed(sk), sk) == pass(sk),
        three_passes(reversed(sk), sk, reversed(sk)) == pass(reversed(sk)),
{
    assert forall|block: Seq<u32>| #[trigger]
        three_passes(sk, reversed(sk), sk)(block) == pass(sk)(block) by {
        lemma_pair_round_trip(sk, (block[0], block[1]));
    }
    assert(three_passes(sk, reversed(sk), sk) =~= pass(sk));
    assert forall|block: Seq<u32>| #[trigger]
        three_passes(reversed(sk), sk, reversed(sk))(block) == pass(reversed(sk))(block) by {
        lemma_pair_round_trip(sk, (block[0], block[1]));
    }
    assert(three_passes(reversed(sk), sk, reversed(sk)) =~= pass(reversed(sk)));
}

/// Single DES: both block transforms give a block for a block, undo each
/// other and are one-to-one.
pub proof fn lemma_transforms(key: Seq<u32>)
    ensures
        keeps_length(encryptor(key), 2),
        keeps_length(decryptor(key), 2),
        undoes(decryptor(key), encryptor(key), 2),
        undoes(encryptor(key), decryptor(key), 2),
        one_to_one(encryptor(key), 2),
        one_to_one(decryptor(key), 2),
{
    let e = encryptor(key);
    let d = decryptor(key);
    assert forall|b: Seq<u32>| b.len() == 2 implies #[trigger] d(e(b)) == b by {
        lemma_block_round_trip(subkeys(key), b);
    }
    assert forall|b: Seq<u32>| b.len() == 2 implies #[trigger] e(d(b)) == b by {
        lemma_block_round_trip(subkeys(key), b);
    }
    lemma_undone_is_one_to_one(e, d, 2);
    lemma_undone_is_one_to_one(d, e, 2);
}

/// Triple-DES: both block transforms give a block for a block, undo each
/// other and are one-to-one.
pub proof fn lemma_triple_transforms(key1: Seq<u32>, key2: Seq<u32>, key3: Seq<u32>)
    ensures
        keeps_length(triple_encryptor(key1, key2, key3), 2),
        keeps_length(triple_decryptor(key1, key2, key3), 2),
        undoes(triple_decryptor(key1, key2, key3), triple_encryptor(key1, key2, key3), 2),
        undoes(triple_encryptor(key1, key2, key3), triple_decryptor(key1, key2, key3), 2),
        one_to_one(triple_encryptor(key1, key2, key3), 2),
        one_to_one(triple_decryptor(key1, key2, key3), 2),
{
    let e = triple_encryptor(key1, key2, key3);
    let d = triple_decryptor(key1, key2, key3);
    let s1 = subkeys(key1);
    let s2 = subkeys(key2);
    let s3 = subkeys(key3);
    assert forall|b: Seq<u32>| b.len() == 2 implies #[trigger] d(e(b)) == b by {
        let x = crypt_block(s1, b);
        let y = crypt_block(reversed(s2), x);
        lemma_block_round_trip(s3, y);
        lemma_block_round_trip(s2, x);
        lemma_block_round_trip(s1, b);
    }
    assert forall|b: Seq<u32>| b.len() == 2 implies #[trigger] e(d(b)) == b by {
        let x = crypt_block(reversed(s3), b);
        let y = crypt_block(s2, x);
        lemma_block_round_trip(s1, y);
        lemma_block_round_trip(s2, x);
        lemma_block_round_trip(s3, b);
    }
    lemma_undone_is_one_to_one(e, d, 2);
    lemma_undone_is_one_to_one(d, e, 2);
}

/// Round trip for single DES: in every mode, decrypting in place what
/// encryption left in the buffer gives the buffer back, and both calls
/// return the same chain state.
pub proof fn lemma_round_trip(mode: Mode, key: Seq<u32>, iv: Seq<u32>, data: Seq<u32>, words: nat)
    requires
        fits(mode, 2, iv, data, words),
    ensures
        ({
            let sealed = run(mode, Direction::Encrypt, encryptor(key), 2, iv, data, words);
            let buffer = sealed.output + data.skip(words as int);
            let opened = run(
                mode,
                Direction::Decrypt,
                pick(mode, Direction::Decrypt, encryptor(key), decryptor(key)),
                2,
                iv,
                buffer,
                words,
            );
            &&& opened.output + buffer.skip(words as int) == data
            &&& opened.chain == sealed.chain
        }),
{
    lemma_transforms(key);
    lemma_round_trip_in_place(mode, encryptor(key), decryptor(key), 2, iv, data, words);
}

/// Round trip for Triple-DES, under any three keys.
pub proof fn lemma_triple_round_trip(
    mode: Mode,
    key1: Seq<u32>,
    key2: Seq<u32>,
    key3: Seq<u32>,
    iv: Seq<u32>,
    data: Seq<u32>,
    words: nat,
)
    requires
        fits(mode, 2, iv, data, words),
    ensures
        ({
            let e = triple_encryptor(key1, key2, key3);
            let d = triple_decryptor(key1, key2, key3);
            let sealed = run(mode, Direction::Encrypt, e, 2, iv, data, words);
            let buffer = sealed.output + data.skip(words as int);
            let opened = run(
                mode,
                Direction::Decrypt,
                pick(mode, Direction::Decrypt, e, d),
                2,
                iv,
                buffer,
                words,
            );
            &&& opened.output + buffer.skip(words as int) == data
            &&& opened.chain == sealed.chain
        }),
{
    lemma_triple_transforms(key1, key2, key3);
    lemma_round_trip_in_place(
        mode,
        triple_encryptor(key1, key2, key3),
        triple_decryptor(key1, key2, key3),
        2,
        iv,
        data,
        words,
    );
}

/// Triple-DES with one key three times is single DES: the same block
/// transforms, and so the same output and chain state in every mode and
/// direction.
pub proof fn lemma_triple_with_one_key(
    mode: Mode,
    dir: Direction,
    key: Seq<u32>,
    iv: Seq<u32>,
    data: Seq<u32>,
    words: nat,
)
    ensures
        triple_encryptor(key, key, key) == encryptor(key),
        triple_decryptor(key, key, key) == decryptor(key),
        run(
            mode,
            dir,
            pick(mode, dir, triple_encryptor(key, key, key), triple_decryptor(key, key, key)),
            2,
            iv,
            data,
            words,
        ) == run(mode, dir, pick(mode, dir, encryptor(key), decryptor(key)), 2, iv, data, words),
{
    lemma_three_passes_collapse(subkeys(key));
}

/// The subkeys are a function of the key's words: the same words give the
/// same subkeys.
pub proof fn lemma_schedule_deterministic(key: Seq<u32>, other: Seq<u32>)
    requires
        key.len() == other.len(),
        forall|i: int| 0 <= i < key.len() ==> key[i] == other[i],
    ensures
        subkeys(key) == subkeys(other),
{
    assert(key =~= other);
}

} // verus!
