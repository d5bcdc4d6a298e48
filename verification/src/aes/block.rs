//! The AES block transform on four columns, driven by the combined tables.
use crate::aes::tables::{lemma_mix_by_bytes, mix, sub_byte, substitute, AesTables};
use crate::mode::BlockTransform;
use crate::words::{byte0, byte1, byte2, byte3, bytes_of, pack, word_of};
use vstd::prelude::*;

verus! {

/// The state: four columns of four bytes, each column a word with its first
/// row in the most significant byte.
#[derive(Clone, Copy, Debug, PartialEq, Eq, Structural)]
pub struct Columns {
    pub c0: u32,
    pub c1: u32,
    pub c2: u32,
    pub c3: u32,
}

/// The columns of a block of four words.
pub open spec fn columns_of(block: Seq<u32>) -> Columns {
    Columns { c0: block[0], c1: block[1], c2: block[2], c3: block[3] }
}

/// The block that four columns make.
pub open spec fn block_of(s: Columns) -> Seq<u32> {
    seq![s.c0, s.c1, s.c2, s.c3]
}

/// The second and the fourth column exchanged.
pub open spec fn exchanged(s: Columns) -> Columns {
    Columns { c0: s.c0, c1: s.c3, c2: s.c2, c3: s.c1 }
}

/// One column after the bytes were substituted and the rows shifted: row
/// `r` of the column comes from the column `r` places to the right.
pub open spec fn sub_shift_word(inverse: bool, a: u32, b: u32, c: u32, d: u32) -> u32 {
    pack(
        sub_byte(inverse, byte0(a)),
        sub_byte(inverse, byte1(b)),
        sub_byte(inverse, byte2(c)),
        sub_byte(inverse, byte3(d)),
    )
}

/// SubBytes and ShiftRows, with the S-box or its inverse.
pub open spec fn sub_shift(inverse: bool, s: Columns) -> Columns {
    Columns {
        c0: sub_shift_word(inverse, s.c0, s.c1, s.c2, s.c3),
        c1: sub_shift_word(inverse, s.c1, s.c2, s.c3, s.c0),
        c2: sub_shift_word(inverse, s.c2, s.c3, s.c0, s.c1),
        c3: sub_shift_word(inverse, s.c3, s.c0, s.c1, s.c2),
    }
}

/// MixColumns, or its inverse, on every column.
pub open spec fn mix_columns(inverse: bool, s: Columns) -> Columns {
    Columns {
        c0: mix(inverse, s.c0),
        c1: mix(inverse, s.c1),
        c2: mix(inverse, s.c2),
        c3: mix(inverse, s.c3),
    }
}

/// The round key of a round: four words of the schedule.
pub open spec fn round_key(ks: Seq<u32>, round: int) -> Columns {
    Columns {
        c0: ks[4 * round],
        c1: ks[4 * round + 1],
        c2: ks[4 * round + 2],
        c3: ks[4 * round + 3],
    }
}

/// Two states mixed column by column.
pub open spec fn xor_columns(s: Columns, k: Columns) -> Columns {
    Columns { c0: s.c0 ^ k.c0, c1: s.c1 ^ k.c1, c2: s.c2 ^ k.c2, c3: s.c3 ^ k.c3 }
}

/// AddRoundKey.
pub open spec fn add_round_key(s: Columns, ks: Seq<u32>, round: int) -> Columns {
    xor_columns(s, round_key(ks, round))
}

/// The state after the first round key and `n` full rounds.
pub open spec fn rounds(inverse: bool, ks: Seq<u32>, s: Columns, n: nat) -> Columns
    decreases n,
{
    if n == 0 {
        add_round_key(s, ks, 0)
    } else {
        add_round_key(
            mix_columns(inverse, sub_shift(inverse, rounds(inverse, ks, s, (n - 1) as nat))),
            ks,
            n as int,
        )
    }
}

/// The whole transform: the first round key, all rounds but one in full,
/// and a last round without mixing. With `inverse` set, the S-box and
/// MixColumns give way to their inverses and nothing else changes.
#[verifier::opaque]
pub open spec fn crypt_columns(inverse: bool, ks: Seq<u32>, n_rounds: nat, s: Columns) -> Columns {
    add_round_key(
        sub_shift(inverse, rounds(inverse, ks, s, (n_rounds - 1) as nat)),
        ks,
        n_rounds as int,
    )
}

/// Encryption of a block of four words under an expanded key.
pub open spec fn encrypt_block(ks: Seq<u32>, n_rounds: nat, block: Seq<u32>) -> Seq<u32> {
    block_of(crypt_columns(false, ks, n_rounds, columns_of(block)))
}

/// Decryption of a block under a schedule for decryption: the second and
/// fourth word are exchanged before and after the transform, which makes the
/// row shift of the transform act as its own inverse.
pub open spec fn decrypt_block(inv_ks: Seq<u32>, n_rounds: nat, block: Seq<u32>) -> Seq<u32> {
    block_of(exchanged(crypt_columns(true, inv_ks, n_rounds, exchanged(columns_of(block)))))
}

/// Encryption under an expanded key, as a function on blocks.
pub open spec fn encryptor(ks: Seq<u32>, n_rounds: nat) -> spec_fn(Seq<u32>) -> Seq<u32> {
    |block: Seq<u32>| encrypt_block(ks, n_rounds, block)
}

/// Decryption under a schedule for decryption, as a function on blocks.
pub open spec fn decryptor(inv_ks: Seq<u32>, n_rounds: nat) -> spec_fn(Seq<u32>) -> Seq<u32> {
    |block: Seq<u32>| decrypt_block(inv_ks, n_rounds, block)
}

/// One column of a full round: four table lookups and the round key word.
fn round_word(tables: &AesTables, inverse: bool, a: u32, b: u32, c: u32, d: u32, k: u32) -> (w:
    u32)
    ensures
        w == mix(inverse, sub_shift_word(inverse, a, b, c, d)) ^ k,
{
    let a0: u8 = bytes_of(a).0;
    let b1: u8 = bytes_of(b).1;
    let c2: u8 = bytes_of(c).2;
    let d3: u8 = bytes_of(d).3;
    proof {
        lemma_mix_by_bytes(
            sub_byte(inverse, a0),
            sub_byte(inverse, b1),
            sub_byte(inverse, c2),
            sub_byte(inverse, d3),
        );
    }
    tables.entry(inverse, 0, a0) ^ tables.entry(inverse, 1, b1) ^ tables.entry(inverse, 2, c2)
        ^ tables.entry(inverse, 3, d3) ^ k
}

/// One column of the last round: four S-box lookups and the round key word.
fn last_round_word(inverse: bool, a: u32, b: u32, c: u32, d: u32, k: u32) -> (w: u32)
    ensures
        w == sub_shift_word(inverse, a, b, c, d) ^ k,
{
    let a0: u8 = bytes_of(a).0;
    let b1: u8 = bytes_of(b).1;
    let c2: u8 = bytes_of(c).2;
    let d3: u8 = bytes_of(d).3;
    word_of(
        substitute(inverse, a0),
        substitute(inverse, b1),
        substitute(inverse, c2),
        substitute(inverse, d3),
    ) ^ k
}

/// Transforms four columns under a schedule, with the tables of the cipher
/// or of the inverse cipher.
pub(crate) fn doCryptBlock(
    tables: &AesTables,
    inverse: bool,
    nRounds: usize,
    state: Columns,
    keySchedule: &[u32],
) -> (out: Columns)
    requires
        nRounds >= 1,
        4 * (nRounds + 1) <= keySchedule@.len(),
    ensures
        out == crypt_columns(inverse, keySchedule@, nRounds as nat, state),
{
    reveal(crypt_columns);
    let ks = keySchedule;
    assert(ks@.len() == ks.len());
    let mut s = Columns {
        c0: state.c0 ^ ks[0],
        c1: state.c1 ^ ks[1],
        c2: state.c2 ^ ks[2],
        c3: state.c3 ^ ks[3],
    };
    let mut round: usize = 1;
    while round < nRounds
        invariant
            1 <= round <= nRounds,
            4 * (nRounds + 1) <= ks@.len(),
            ks@.len() <= usize::MAX,
            s == rounds(inverse, ks@, state, (round - 1) as nat),
        decreases nRounds - round,
    {
        let r: usize = 4 * round;
        s =
        Columns {
            c0: round_word(tables, inverse, s.c0, s.c1, s.c2, s.c3, ks[r]),
            c1: round_word(tables, inverse, s.c1, s.c2, s.c3, s.c0, ks[r + 1]),
            c2: round_word(tables, inverse, s.c2, s.c3, s.c0, s.c1, ks[r + 2]),
            c3: round_word(tables, inverse, s.c3, s.c0, s.c1, s.c2, ks[r + 3]),
        };
        round += 1;
    }
    let r: usize = 4 * nRounds;
    Columns {
        c0: last_round_word(inverse, s.c0, s.c1, s.c2, s.c3, ks[r]),
        c1: last_round_word(inverse, s.c1, s.c2, s.c3, s.c0, ks[r + 1]),
        c2: last_round_word(inverse, s.c2, s.c3, s.c0, s.c1, ks[r + 2]),
        c3: last_round_word(inverse, s.c3, s.c0, s.c1, s.c2, ks[r + 3]),
    }
}

/// AES on blocks under a schedule: encryption under an expanded key, or,
/// with `inverse` set, decryption under a schedule for decryption.
pub struct AesPass<'a> {
    pub tables: &'a AesTables,
    pub inverse: bool,
    pub rounds: usize,
    pub schedule: &'a [u32],
}

impl<'a> BlockTransform for AesPass<'a> {
    open spec fn block_words(&self) -> nat {
        4
    }

    open spec fn ready(&self) -> bool {
        &&& self.rounds >= 1
        &&& 4 * (self.rounds + 1) <= self.schedule@.len()
    }

    open spec fn function(&self) -> spec_fn(Seq<u32>) -> Seq<u32> {
        if self.inverse {
            decryptor(self.schedule@, self.rounds as nat)
        } else {
            encryptor(self.schedule@, self.rounds as nat)
        }
    }

    fn block_len(&self) -> (n: usize) {
        4
    }

    fn transform(&self, block: &mut Vec<u32>) {
        let s = Columns { c0: block[0], c1: block[1], c2: block[2], c3: block[3] };
        let out = if self.inverse {
            let t = Columns { c0: s.c0, c1: s.c3, c2: s.c2, c3: s.c1 };
            let o = doCryptBlock(self.tables, true, self.rounds, t, self.schedule);
            Columns { c0: o.c0, c1: o.c3, c2: o.c2, c3: o.c1 }
        } else {
            doCryptBlock(self.tables, false, self.rounds, s, self.schedule)
        };
        store(block, out);
    }
}

/// Writes four columns over a block of four words.
fn store(block: &mut Vec<u32>, s: Columns)
    requires
        old(block)@.len() == 4,
    ensures
        final(block)@ == block_of(s),
{
    block[0] = s.c0;
    block[1] = s.c1;
    block[2] = s.c2;
    block[3] = s.c3;
    assert(block@ =~= block_of(s));
}

} // verus!
