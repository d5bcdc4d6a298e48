//! The AES key expansion, and the schedule that decryption runs under.
use crate::aes::tables::{
    inv_mix_column, lemma_mix_by_bytes, lemma_sub_byte_inverse, place, round_constant, sub_byte,
    substitute, AesTables, RCON,
};
use crate::error::CipherError;
use crate::words::{byte0, byte1, byte2, byte3, bytes_of, lemma_pack_bytes, pack, word_of};
use vstd::prelude::*;

verus! {

/// The word turned left by one byte.
pub open spec fn rot_word(w: u32) -> u32 {
    (w << 8) | (w >> 24)
}

/// The S-box on each byte of a word.
pub open spec fn sub_word(w: u32) -> u32 {
    pack(
        sub_byte(false, byte0(w)),
        sub_byte(false, byte1(w)),
        sub_byte(false, byte2(w)),
        sub_byte(false, byte3(w)),
    )
}

/// Word `i` of the expanded key. The key's own words come first. After
/// them, every word is the word one key length before it, mixed with the
/// word just before it; that word is first turned, substituted and given a
/// round constant where a new key length starts, and only substituted in the
/// middle of a key length of more than six words.
pub open spec fn schedule_word(key: Seq<u32>, i: nat) -> u32
    decreases i,
{
    let nk = key.len();
    if nk == 0 || i < nk {
        key[i as int]
    } else {
        let t = schedule_word(key, (i - 1) as nat);
        let u = if i % nk == 0 {
            sub_word(rot_word(t)) ^ round_constant((i / nk) as int)
        } else if nk > 6 && i % nk == 4 {
            sub_word(t)
        } else {
            t
        };
        schedule_word(key, (i - nk) as nat) ^ u
    }
}

/// The number of rounds that a key of so many words asks for.
pub open spec fn rounds_for(key_words: nat) -> nat {
    key_words + 6
}

/// The expanded key: four words for each of the rounds and four more.
pub open spec fn key_schedule(key: Seq<u32>) -> Seq<u32> {
    Seq::new(4 * (rounds_for(key.len()) + 1), |i: int| schedule_word(key, i as nat))
}

/// Word `i` of the schedule for decryption: the round keys in reverse
/// order, each with its second and fourth word exchanged, and all but the
/// first and the last round key passed through InvMixColumns.
pub open spec fn inv_schedule_word(ks: Seq<u32>, i: int) -> u32 {
    let rows = ks.len() as int;
    let t = if i % 4 == 0 {
        ks[rows - i - 4]
    } else {
        ks[rows - i]
    };
    if i < 4 || rows - i <= 4 {
        t
    } else {
        inv_mix_column(t)
    }
}

/// The schedule for decryption that belongs to an expanded key.
pub open spec fn inverse_of(ks: Seq<u32>) -> Seq<u32> {
    Seq::new(ks.len(), |i: int| inv_schedule_word(ks, i))
}

/// The schedule for decryption of a key.
pub open spec fn inv_key_schedule(key: Seq<u32>) -> Seq<u32> {
    inverse_of(key_schedule(key))
}

/// Why a key is turned down, if it is: its size must be 4, 6 or 8 words,
/// and the words must be there.
pub open spec fn key_error(key_len: nat, key_size: nat) -> Option<CipherError> {
    if key_size != 4 && key_size != 6 && key_size != 8 {
        Some(CipherError::InvalidKeySize)
    } else if key_len < key_size {
        Some(CipherError::OutOfBounds)
    } else {
        None
    }
}

fn substitute_word(w: u32) -> (r: u32)
    ensures
        r == sub_word(w),
{
    let (a, b, c, d) = bytes_of(w);
    word_of(substitute(false, a), substitute(false, b), substitute(false, c), substitute(false, d))
}

/// Expands a key of 4, 6 or 8 words.
pub fn getKeySchedules(keySize: u32, keyWords: &[u32]) -> (r: Result<Vec<u32>, CipherError>)
    ensures
        match key_error(keyWords@.len(), keySize as nat) {
            Some(e) => r == Err::<Vec<u32>, CipherError>(e),
            None => r matches Ok(ks) && ks@ == key_schedule(keyWords@.take(keySize as int)),
        },
{
    if keySize != 4 && keySize != 6 && keySize != 8 {
        return Err(CipherError::InvalidKeySize);
    }
    let nk: usize = keySize as usize;
    if keyWords.len() < nk {
        return Err(CipherError::OutOfBounds);
    }
    let ghost key = keyWords@.take(keySize as int);
    let rows: usize = (nk + 7) * 4;
    let mut ks: Vec<u32> = Vec::new();
    let mut row: usize = 0;
    while row < rows
        invariant
            nk == 4 || nk == 6 || nk == 8,
            rows == (nk + 7) * 4,
            row <= rows,
            nk <= keyWords@.len(),
            key == keyWords@.take(nk as int),
            ks@.len() == row,
            forall|j: int| 0 <= j < row ==> ks@[j] == schedule_word(key, j as nat),
        decreases rows - row,
    {
        if row < nk {
            ks.push(keyWords[row]);
        } else {
            let mut t: u32 = ks[row - 1];
            if row % nk == 0 {
                t = (t << 8) | (t >> 24);
                t = substitute_word(t);
                let step: usize = row / nk;
                assert(step <= 10) by {
                    if nk == 4 {
                        assert(row / 4 <= 10);
                    } else if nk == 6 {
                        assert(row / 6 <= 10);
                    } else {
                        assert(row / 8 <= 10);
                    }
                }
                t = t ^ ((RCON[step] as u32) << 24);
            } else if nk > 6 && row % nk == 4 {
                t = substitute_word(t);
            }
            ks.push(ks[row - nk] ^ t);
        }
        row += 1;
    }
    assert(ks@ =~= key_schedule(key));
    Ok(ks)
}

/// One word of the schedule for decryption, through the combined tables of
/// the inverse cipher: each byte goes through the S-box and then through
/// the table for its place, which undoes the S-box and mixes.
fn inverse_mixed(tables: &AesTables, t: u32) -> (r: u32)
    ensures
        r == inv_mix_column(t),
{
    let (a, b, c, d) = bytes_of(t);
    proof {
        lemma_sub_byte_inverse(false, a);
        lemma_sub_byte_inverse(false, b);
        lemma_sub_byte_inverse(false, c);
        lemma_sub_byte_inverse(false, d);
        lemma_mix_by_bytes(a, b, c, d);
        lemma_pack_bytes(a, b, c, d, t);
    }
    tables.entry(true, 0, substitute(false, a)) ^ tables.entry(true, 1, substitute(false, b))
        ^ tables.entry(true, 2, substitute(false, c)) ^ tables.entry(
        true,
        3,
        substitute(false, d),
    )
}

/// The schedule for decryption that belongs to an expanded key.
pub(crate) fn getInvKeySchedules(tables: &AesTables, keySchedule: &Vec<u32>) -> (inv: Vec<u32>)
    requires
        keySchedule@.len() % 4 == 0,
    ensures
        inv@ == inverse_of(keySchedule@),
{
    let rows: usize = keySchedule.len();
    let mut inv: Vec<u32> = Vec::new();
    let mut i: usize = 0;
    while i < rows
        invariant
            rows == keySchedule@.len(),
            rows % 4 == 0,
            i <= rows,
            inv@.len() == i,
            forall|j: int| 0 <= j < i ==> inv@[j] == inv_schedule_word(keySchedule@, j),
        decreases rows - i,
    {
        let row: usize = rows - i;
        let t: u32 = if i % 4 == 0 {
            keySchedule[row - 4]
        } else {
            keySchedule[row]
        };
        if i < 4 || row <= 4 {
            inv.push(t);
        } else {
            inv.push(inverse_mixed(tables, t));
        }
        i += 1;
    }
    assert(inv@ =~= inverse_of(keySchedule@));
    inv
}

} // verus!
