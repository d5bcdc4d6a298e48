//! What holds of AES whatever the key: decryption under the schedule for
//! decryption undoes encryption under the expanded key, and the other way
//! round.
use crate::aes::algebra::{lemma_mix_inverse, lemma_mix_linear};
use crate::aes::block::{
    block_of, columns_of, crypt_columns, decrypt_block, decryptor, encrypt_block, encryptor,
    exchanged, mix_columns, round_key, rounds, sub_shift, sub_shift_word, xor_columns, Columns,
};
use crate::aes::schedule::{
    inv_key_schedule, inv_schedule_word, inverse_of, key_schedule, rounds_for,
};
use crate::aes::tables::{lemma_sub_byte_inverse, mix, sub_byte};
use crate::mode::{pick, run, Direction, Mode};
use crate::mode_laws::{
    fits, keeps_length, lemma_round_trip_in_place, lemma_undone_is_one_to_one, one_to_one, undoes,
};
use crate::words::{byte0, byte1, byte2, byte3, lemma_pack_bytes, lemma_xor_cancel};
use vstd::prelude::*;

verus! {

/// The second schedule holds the round keys of the first in reverse order,
/// each with its second and fourth word exchanged, and all but the first
/// and the last passed through the mixing that the second transform does.
#[verifier::opaque]
pub open spec fn mirrored(inverse: bool, first: Seq<u32>, second: Seq<u32>, n_rounds: nat) -> bool {
    forall|j: int|
        0 <= j <= n_rounds ==> #[trigger] round_key(second, j) == (if j == 0 || j == n_rounds {
            exchanged(round_key(first, n_rounds - j))
        } else {
            mix_columns(!inverse, exchanged(round_key(first, n_rounds - j)))
        })
}

/// What `mirrored` says of one round key.
proof fn lemma_mirrored_key(
    inverse: bool,
    first: Seq<u32>,
    second: Seq<u32>,
    n_rounds: nat,
    j: int,
)
    requires
        mirrored(inverse, first, second, n_rounds),
        0 <= j <= n_rounds,
    ensures
        round_key(second, j) == (if j == 0 || j == n_rounds {
            exchanged(round_key(first, n_rounds - j))
        } else {
            mix_columns(!inverse, exchanged(round_key(first, n_rounds - j)))
        }),
{
    reveal(mirrored);
}

proof fn lemma_shifted_bytes(inverse: bool, a: u32, b: u32, c: u32, d: u32)
    ensures
        sub_byte(!inverse, byte0(sub_shift_word(inverse, a, b, c, d))) == byte0(a),
        sub_byte(!inverse, byte1(sub_shift_word(inverse, a, b, c, d))) == byte1(b),
        sub_byte(!inverse, byte2(sub_shift_word(inverse, a, b, c, d))) == byte2(c),
        sub_byte(!inverse, byte3(sub_shift_word(inverse, a, b, c, d))) == byte3(d),
{
    lemma_pack_bytes(
        sub_byte(inverse, byte0(a)),
        sub_byte(inverse, byte1(b)),
        sub_byte(inverse, byte2(c)),
        sub_byte(inverse, byte3(d)),
        0,
    );
    lemma_sub_byte_inverse(inverse, byte0(a));
    lemma_sub_byte_inverse(inverse, byte1(b));
    lemma_sub_byte_inverse(inverse, byte2(c));
    lemma_sub_byte_inverse(inverse, byte3(d));
}

/// Between two exchanges of the second and fourth column, the row shift
/// undoes itself; and the one S-box undoes the other.
proof fn lemma_sub_shift_undo(inverse: bool, s: Columns)
    ensures
        sub_shift(!inverse, exchanged(sub_shift(inverse, s))) == exchanged(s),
{
    lemma_shifted_bytes(inverse, s.c0, s.c1, s.c2, s.c3);
    lemma_shifted_bytes(inverse, s.c1, s.c2, s.c3, s.c0);
    lemma_shifted_bytes(inverse, s.c2, s.c3, s.c0, s.c1);
    lemma_shifted_bytes(inverse, s.c3, s.c0, s.c1, s.c2);
    lemma_pack_bytes(0, 0, 0, 0, s.c0);
    lemma_pack_bytes(0, 0, 0, 0, s.c1);
    lemma_pack_bytes(0, 0, 0, 0, s.c2);
    lemma_pack_bytes(0, 0, 0, 0, s.c3);
}

/// A word that was mixed and keyed gives the unmixed word back when it and
/// the key word are both mixed the other way.
proof fn lemma_unmix_word(g: bool, e: u32, k: u32, x: u32)
    requires
        e == mix(!g, x) ^ k,
    ensures
        mix(g, e) ^ mix(g, k) == x,
{
    lemma_mix_linear(g, e, k);
    lemma_xor_cancel(mix(!g, x), k);
    lemma_mix_inverse(!g, x);
}

proof fn lemma_unmix_columns(g: bool, e: Columns, k: Columns, x: Columns)
    requires
        e == xor_columns(mix_columns(!g, x), k),
    ensures
        xor_columns(mix_columns(g, exchanged(e)), mix_columns(g, exchanged(k))) == exchanged(x),
{
    lemma_unmix_word(g, e.c0, k.c0, x.c0);
    lemma_unmix_word(g, e.c1, k.c1, x.c1);
    lemma_unmix_word(g, e.c2, k.c2, x.c2);
    lemma_unmix_word(g, e.c3, k.c3, x.c3);
}

proof fn lemma_unkey_columns(e: Columns, k: Columns, x: Columns)
    requires
        e == xor_columns(x, k),
    ensures
        xor_columns(exchanged(e), exchanged(k)) == exchanged(x),
{
    lemma_xor_cancel(x.c0, k.c0);
    lemma_xor_cancel(x.c1, k.c1);
    lemma_xor_cancel(x.c2, k.c2);
    lemma_xor_cancel(x.c3, k.c3);
}

/// The second transform walks the rounds of the first back: after `j`
/// rounds it holds the state that the first transform had `j` rounds before
/// its last, substituted and shifted, with its columns exchanged.
proof fn lemma_walk_back(
    inverse: bool,
    first: Seq<u32>,
    second: Seq<u32>,
    n_rounds: nat,
    s: Columns,
    j: nat,
)
    requires
        n_rounds >= 1,
        mirrored(inverse, first, second, n_rounds),
        j <= n_rounds - 1,
    ensures
        rounds(!inverse, second, exchanged(crypt_columns(inverse, first, n_rounds, s)), j)
            == exchanged(sub_shift(inverse, rounds(inverse, first, s, (n_rounds - 1 - j) as nat))),
    decreases j,
{
    reveal(crypt_columns);
    let out = crypt_columns(inverse, first, n_rounds, s);
    if j == 0 {
        let x = sub_shift(inverse, rounds(inverse, first, s, (n_rounds - 1) as nat));
        lemma_mirrored_key(inverse, first, second, n_rounds, 0);
        lemma_unkey_columns(out, round_key(first, n_rounds as int), x);
    } else {
        lemma_walk_back(inverse, first, second, n_rounds, s, (j - 1) as nat);
        let e = rounds(inverse, first, s, (n_rounds - j) as nat);
        let before = rounds(inverse, first, s, (n_rounds - j - 1) as nat);
        let x = sub_shift(inverse, before);
        let k = round_key(first, n_rounds - j);
        assert(e == xor_columns(mix_columns(inverse, x), k));
        let d = rounds(!inverse, second, exchanged(out), (j - 1) as nat);
        assert(d == exchanged(sub_shift(inverse, e)));
        lemma_sub_shift_undo(inverse, e);
        lemma_mirrored_key(inverse, first, second, n_rounds, j as int);
        lemma_unmix_columns(!inverse, e, k, x);
    }
}

/// The second transform, between two exchanges of the second and fourth
/// column, undoes the first.
pub proof fn lemma_second_pass_undoes(
    inverse: bool,
    first: Seq<u32>,
    second: Seq<u32>,
    n_rounds: nat,
    s: Columns,
)
    requires
        n_rounds >= 1,
        mirrored(inverse, first, second, n_rounds),
    ensures
        exchanged(
            crypt_columns(
                !inverse,
                second,
                n_rounds,
                exchanged(crypt_columns(inverse, first, n_rounds, s)),
            ),
        ) == s,
{
    reveal(crypt_columns);
    lemma_walk_back(inverse, first, second, n_rounds, s, (n_rounds - 1) as nat);
    let e = rounds(inverse, first, s, 0);
    let k = round_key(first, 0);
    assert(e == xor_columns(s, k));
    lemma_sub_shift_undo(inverse, e);
    lemma_mirrored_key(inverse, first, second, n_rounds, n_rounds as int);
    lemma_unkey_columns(e, k, s);
}

/// The schedule for decryption mirrors the expanded key.
proof fn lemma_inverse_mirrors(ks: Seq<u32>, n_rounds: nat)
    requires
        ks.len() == 4 * (n_rounds + 1),
    ensures
        mirrored(false, ks, inverse_of(ks), n_rounds),
{
    reveal(mirrored);
    let inv = inverse_of(ks);
    assert forall|j: int| 0 <= j <= n_rounds implies #[trigger] round_key(inv, j) == (if j == 0
        || j == n_rounds {
        exchanged(round_key(ks, n_rounds - j))
    } else {
        mix_columns(true, exchanged(round_key(ks, n_rounds - j)))
    }) by {
        assert(inv[4 * j] == inv_schedule_word(ks, 4 * j));
        assert(inv[4 * j + 1] == inv_schedule_word(ks, 4 * j + 1));
        assert(inv[4 * j + 2] == inv_schedule_word(ks, 4 * j + 2));
        assert(inv[4 * j + 3] == inv_schedule_word(ks, 4 * j + 3));
    }
}

/// The expanded key mirrors the schedule for decryption.
proof fn lemma_forward_mirrors(ks: Seq<u32>, n_rounds: nat)
    requires
        ks.len() == 4 * (n_rounds + 1),
    ensures
        mirrored(true, inverse_of(ks), ks, n_rounds),
{
    let inv = inverse_of(ks);
    lemma_inverse_mirrors(ks, n_rounds);
    assert forall|j: int| 0 <= j <= n_rounds implies #[trigger] round_key(ks, j) == (if j == 0
        || j == n_rounds {
        exchanged(round_key(inv, n_rounds - j))
    } else {
        mix_columns(false, exchanged(round_key(inv, n_rounds - j)))
    }) by {
        let k = round_key(ks, j);
        lemma_mirrored_key(false, ks, inv, n_rounds, n_rounds - j);
        lemma_mix_inverse(true, k.c0);
        lemma_mix_inverse(true, k.c1);
        lemma_mix_inverse(true, k.c2);
        lemma_mix_inverse(true, k.c3);
    }
    reveal(mirrored);
}

/// On blocks: decryption and encryption undo each other, and each gives a
/// block for a block.
pub proof fn lemma_block_round_trip(ks: Seq<u32>, n_rounds: nat, block: Seq<u32>)
    requires
        n_rounds >= 1,
        ks.len() == 4 * (n_rounds + 1),
        block.len() == 4,
    ensures
        encrypt_block(ks, n_rounds, block).len() == 4,
        decrypt_block(inverse_of(ks), n_rounds, block).len() == 4,
        decrypt_block(inverse_of(ks), n_rounds, encrypt_block(ks, n_rounds, block)) == block,
        encrypt_block(ks, n_rounds, decrypt_block(inverse_of(ks), n_rounds, block)) == block,
{
    let inv = inverse_of(ks);
    let s = columns_of(block);
    lemma_inverse_mirrors(ks, n_rounds);
    lemma_forward_mirrors(ks, n_rounds);
    lemma_second_pass_undoes(false, ks, inv, n_rounds, s);
    lemma_second_pass_undoes(true, inv, ks, n_rounds, exchanged(s));
    let sealed = crypt_columns(false, ks, n_rounds, s);
    assert(columns_of(block_of(sealed)) == sealed);
    assert(block_of(s) =~= block);
    let opened = exchanged(crypt_columns(true, inv, n_rounds, exchanged(s)));
    assert(columns_of(block_of(opened)) == opened);
    assert(exchanged(exchanged(s)) == s);
    assert(exchanged(crypt_columns(false, ks, n_rounds, opened)) == exchanged(s));
    assert(crypt_columns(false, ks, n_rounds, opened) == exchanged(
        exchanged(crypt_columns(false, ks, n_rounds, opened)),
    ));
}

/// Under the expanded key and the schedule for decryption of one key, both
/// block transforms give a block for a block, undo each other and are
/// one-to-one.
pub proof fn lemma_transforms(key: Seq<u32>)
    ensures
        keeps_length(encryptor(key_schedule(key), rounds_for(key.len())), 4),
        keeps_length(decryptor(inv_key_schedule(key), rounds_for(key.len())), 4),
        undoes(
            decryptor(inv_key_schedule(key), rounds_for(key.len())),
            encryptor(key_schedule(key), rounds_for(key.len())),
            4,
        ),
        undoes(
            encryptor(key_schedule(key), rounds_for(key.len())),
            decryptor(inv_key_schedule(key), rounds_for(key.len())),
            4,
        ),
        one_to_one(encryptor(key_schedule(key), rounds_for(key.len())), 4),
        one_to_one(decryptor(inv_key_schedule(key), rounds_for(key.len())), 4),
{
    let ks = key_schedule(key);
    let n = rounds_for(key.len());
    let e = encryptor(ks, n);
    let d = decryptor(inv_key_schedule(key), n);
    assert forall|b: Seq<u32>| b.len() == 4 implies #[trigger] d(e(b)) == b by {
        lemma_block_round_trip(ks, n, b);
    }
    assert forall|b: Seq<u32>| b.len() == 4 implies #[trigger] e(d(b)) == b by {
        lemma_block_round_trip(ks, n, b);
    }
    lemma_undone_is_one_to_one(e, d, 4);
    lemma_undone_is_one_to_one(d, e, 4);
}

/// Round trip: in every mode and for every key, decrypting in place what
/// encryption left in the buffer gives the buffer back, and both calls
/// return the same chain state.
pub proof fn lemma_round_trip(mode: Mode, key: Seq<u32>, iv: Seq<u32>, data: Seq<u32>, words: nat)
    requires
        fits(mode, 4, iv, data, words),
    ensures
        ({
            let e = encryptor(key_schedule(key), rounds_for(key.len()));
            let d = decryptor(inv_key_schedule(key), rounds_for(key.len()));
            let sealed = run(mode, Direction::Encrypt, e, 4, iv, data, words);
            let buffer = sealed.output + data.skip(words as int);
            let opened = run(
                mode,
                Direction::Decrypt,
                pick(mode, Direction::Decrypt, e, d),
                4,
                iv,
                buffer,
                words,
            );
            &&& opened.output + buffer.skip(words as int) == data
            &&& opened.chain == sealed.chain
        }),
{
    lemma_transforms(key);
    lemma_round_trip_in_place(
        mode,
        encryptor(key_schedule(key), rounds_for(key.len())),
        decryptor(inv_key_schedule(key), rounds_for(key.len())),
        4,
        iv,
        data,
        words,
    );
}

/// The schedules are functions of the key's words: the same words give the
/// same schedules.
pub proof fn lemma_schedule_deterministic(key: Seq<u32>, other: Seq<u32>)
    requires
        key.len() == other.len(),
        forall|i: int| 0 <= i < key.len() ==> key[i] == other[i],
    ensures
        key_schedule(key) == key_schedule(other),
        inv_key_schedule(key) == inv_key_schedule(other),
{
    assert(key =~= other);
}

} // verus!
