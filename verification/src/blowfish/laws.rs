//! What holds of Blowfish whatever the key schedule: decryption undoes
//! encryption and encryption undoes decryption.
use crate::blowfish::block::{
    backwards, crypt_pair, decrypt_block, decryptor, encrypt_block, encryptor, f_function, round,
    rounds,
};
use crate::blowfish::schedule::key_state;
use crate::mode::{pick, run, Direction, Mode};
use crate::mode_laws::{
    fits, keeps_length, lemma_round_trip_in_place, lemma_undone_is_one_to_one, one_to_one, undoes,
};
use crate::words::{lemma_xor_cancel, lemma_xor_regroup};
use vstd::prelude::*;

verus! {

/// Running the network backwards from its output walks the rounds back: the
/// state after `j` rounds under the reversed P-array is the state `j` rounds
/// before the end, its halves swapped and the P-array words that come next
/// already mixed in.
proof fn lemma_rounds_undo(p: Seq<u32>, s: Seq<u32>, lr: (u32, u32), j: nat)
    requires
        p.len() >= 18,
        j <= 16,
    ensures
        ({
            let back = rounds(lr, p, s, (16 - j) as nat);
            rounds(crypt_pair(p, s, lr), backwards(p), s, j) == (
                back.1 ^ p[17 - j],
                back.0 ^ p[16 - j],
            )
        }),
    decreases j,
{
    if j > 0 {
        lemma_rounds_undo(p, s, lr, (j - 1) as nat);
        let m = 17 - j;
        let cur = rounds(lr, p, s, m as nat);
        let prev = rounds(lr, p, s, (m - 1) as nat);
        assert(cur == round(prev, p, s, m - 1));
        let d = rounds(crypt_pair(p, s, lr), backwards(p), s, (j - 1) as nat);
        assert(d == (cur.1 ^ p[m + 1], cur.0 ^ p[m]));
        assert(backwards(p)[j - 1] == p[m + 1]);
        lemma_xor_cancel(cur.1, p[m + 1]);
        let f = f_function(s, cur.1);
        assert(cur.0 == f ^ prev.1);
        lemma_xor_regroup(f, prev.1, p[m]);
        assert(round(d, backwards(p), s, j - 1) == (prev.1 ^ p[m], cur.1));
    }
}

/// Decryption undoes encryption, on the two halves of a block.
proof fn lemma_decrypt_encrypt(p: Seq<u32>, s: Seq<u32>, lr: (u32, u32))
    requires
        p.len() >= 18,
    ensures
        crypt_pair(backwards(p), s, crypt_pair(p, s, lr)) == lr,
{
    lemma_rounds_undo(p, s, lr, 16);
    assert(rounds(lr, p, s, 0) == lr);
    assert(backwards(p)[17] == p[0]);
    assert(backwards(p)[16] == p[1]);
    lemma_xor_cancel(lr.0, p[0]);
    lemma_xor_cancel(lr.1, p[1]);
}

/// The network reads the first 18 words of the P-array only.
proof fn lemma_rounds_read_18(p: Seq<u32>, q: Seq<u32>, s: Seq<u32>, lr: (u32, u32), n: nat)
    requires
        n <= 16,
        forall|i: int| 0 <= i < 18 ==> p[i] == q[i],
    ensures
        rounds(lr, p, s, n) == rounds(lr, q, s, n),
    decreases n,
{
    if n > 0 {
        lemma_rounds_read_18(p, q, s, lr, (n - 1) as nat);
    }
}

/// Encryption undoes decryption, on the two halves of a block.
proof fn lemma_encrypt_decrypt(p: Seq<u32>, s: Seq<u32>, lr: (u32, u32))
    requires
        p.len() >= 18,
    ensures
        crypt_pair(p, s, crypt_pair(backwards(p), s, lr)) == lr,
{
    let q = backwards(p);
    lemma_decrypt_encrypt(q, s, lr);
    lemma_rounds_read_18(backwards(q), p, s, crypt_pair(q, s, lr), 16);
}

/// On blocks: decryption and encryption undo each other, and each gives a
/// block for a block.
pub proof fn lemma_block_round_trip(p: Seq<u32>, s: Seq<u32>, block: Seq<u32>)
    requires
        p.len() >= 18,
        block.len() == 2,
    ensures
        encrypt_block(p, s, block).len() == 2,
        decrypt_block(p, s, block).len() == 2,
        decrypt_block(p, s, encrypt_block(p, s, block)) == block,
        encrypt_block(p, s, decrypt_block(p, s, block)) == block,
{
    lemma_decrypt_encrypt(p, s, (block[0], block[1]));
    lemma_encrypt_decrypt(p, s, (block[0], block[1]));
    assert(decrypt_block(p, s, encrypt_block(p, s, block)) =~= block);
    assert(encrypt_block(p, s, decrypt_block(p, s, block)) =~= block);
}

/// Both block transforms are one-to-one and undo each other.
pub proof fn lemma_transforms(p: Seq<u32>, s: Seq<u32>)
    requires
        p.len() >= 18,
    ensures
        keeps_length(encryptor(p, s), 2),
        keeps_length(decryptor(p, s), 2),
        undoes(decryptor(p, s), encryptor(p, s), 2),
        undoes(encryptor(p, s), decryptor(p, s), 2),
        one_to_one(encryptor(p, s), 2),
        one_to_one(decryptor(p, s), 2),
{
    let e = encryptor(p, s);
    let d = decryptor(p, s);
    assert forall|b: Seq<u32>| b.len() == 2 implies #[trigger] d(e(b)) == b by {
        lemma_block_round_trip(p, s, b);
    }
    assert forall|b: Seq<u32>| b.len() == 2 implies #[trigger] e(d(b)) == b by {
        lemma_block_round_trip(p, s, b);
    }
    lemma_undone_is_one_to_one(e, d, 2);
    lemma_undone_is_one_to_one(d, e, 2);
}

/// Round trip: in every mode, decrypting in place what encryption left in
/// the buffer gives the buffer back, and both calls return the same chain
/// state. This holds for every key schedule of 18 and 1024 words, and so for
/// the schedule of every key.
pub proof fn lemma_round_trip(
    mode: Mode,
    p: Seq<u32>,
    s: Seq<u32>,
    iv: Seq<u32>,
    data: Seq<u32>,
    words: nat,
)
    requires
        p.len() >= 18,
        fits(mode, 2, iv, data, words),
    ensures
        ({
            let sealed = run(mode, Direction::Encrypt, encryptor(p, s), 2, iv, data, words);
            let buffer = sealed.output + data.skip(words as int);
            let opened = run(
                mode,
                Direction::Decrypt,
                pick(mode, Direction::Decrypt, encryptor(p, s), decryptor(p, s)),
                2,
                iv,
                buffer,
                words,
            );
            &&& opened.output + buffer.skip(words as int) == data
            &&& opened.chain == sealed.chain
        }),
{
    lemma_transforms(p, s);
    lemma_round_trip_in_place(mode, encryptor(p, s), decryptor(p, s), 2, iv, data, words);
}

/// The key schedule is a function of the key's words: the same words give
/// the same schedule.
pub proof fn lemma_schedule_deterministic(key: Seq<u32>, other: Seq<u32>)
    requires
        key.len() == other.len(),
        forall|i: int| 0 <= i < key.len() ==> key[i] == other[i],
    ensures
        key_state(key) == key_state(other),
{
    assert(key =~= other);
}

} // verus!
