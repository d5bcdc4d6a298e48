//! The DES key schedule: sixteen subkeys of 48 bits, each held as eight
//! six-bit selectors that lie where the round function meets them.
use crate::des::tables::{BIT_SHIFTS, PC1, PC2};
use crate::error::CipherError;
use vstd::prelude::*;

verus! {

/// Bit `pos` of the key, as 0 or 1. Positions count from 1, the most
/// significant bit of the first word, to 64.
pub open spec fn key_bit(key: Seq<u32>, pos: int) -> u32 {
    (key[(pos - 1) / 32] >> ((31 - (pos - 1) % 32) as u32)) & 1
}

/// The `j`-th of the 56 bits that PC1 keeps, `j` from 0.
pub open spec fn chosen_bit(key: Seq<u32>, j: int) -> u32 {
    key_bit(key, PC1[j] as int)
}

/// Bit `i` (from 0 to 47) of the subkey of a round: PC2 applied to the two
/// halves of 28 bits, each rotated left as far as the round asks.
pub open spec fn subkey_bit(key: Seq<u32>, round: int, i: int) -> u32 {
    let half: int = if i < 24 {
        0
    } else {
        28
    };
    chosen_bit(key, half + (PC2[i] as int - 1 + BIT_SHIFTS[round] as int) % 28)
}

/// The first `k` bits of the `group`-th six of a round's subkey, packed from
/// bit 31 downwards.
pub open spec fn gather(key: Seq<u32>, round: int, group: int, k: nat) -> u32
    decreases k,
{
    if k == 0 {
        0
    } else {
        gather(key, round, group, (k - 1) as nat) | (subkey_bit(key, round, 6 * group + k - 1) << ((
        32 - k) as u32))
    }
}

/// The `group`-th selector of a round: six subkey bits, placed where the six
/// bits of the expanded half that feed S-box `group` lie in the unexpanded
/// word. The first and the last selector wrap around the word's ends.
pub open spec fn selector_word(key: Seq<u32>, round: int, group: int) -> u32 {
    let w = gather(key, round, group, 6);
    if group == 0 {
        (w << 1) | (w >> 31)
    } else if group == 7 {
        (w << 5) | (w >> 27)
    } else {
        w >> ((4 * (group - 1) + 3) as u32)
    }
}

/// The sixteen subkeys of a key, eight selectors each, round after round.
pub open spec fn subkeys(key: Seq<u32>) -> Seq<u32> {
    Seq::new(128, |i: int| selector_word(key, i / 8, i % 8))
}

/// The subkeys in reverse round order, as decryption takes them.
pub open spec fn reversed(sk: Seq<u32>) -> Seq<u32> {
    Seq::new(128, |i: int| sk[8 * (15 - i / 8) + i % 8])
}

fn chosen_bits(key: &[u32]) -> (bits: Vec<u32>)
    requires
        key@.len() == 2,
    ensures
        bits@.len() == 56,
        forall|j: int| 0 <= j < 56 ==> bits@[j] == chosen_bit(key@, j),
{
    let mut bits: Vec<u32> = Vec::new();
    let mut j: usize = 0;
    while j < 56
        invariant
            j <= 56,
            key@.len() == 2,
            bits@.len() == j,
            forall|m: int| 0 <= m < j ==> bits@[m] == chosen_bit(key@, m),
        decreases 56 - j,
    {
        let pos: u32 = PC1[j] as u32 - 1;
        let word: u32 = key[(pos / 32) as usize];
        bits.push((word >> (31 - pos % 32)) & 1);
        j += 1;
    }
    bits
}

fn selector_of(bits: &Vec<u32>, Ghost(key): Ghost<Seq<u32>>, round: usize, group: usize) -> (w: u32)
    requires
        bits@.len() == 56,
        forall|j: int| 0 <= j < 56 ==> bits@[j] == chosen_bit(key, j),
        round < 16,
        group < 8,
    ensures
        w == selector_word(key, round as int, group as int),
{
    let mut w: u32 = 0;
    let mut k: u32 = 0;
    while k < 6
        invariant
            k <= 6,
            bits@.len() == 56,
            forall|j: int| 0 <= j < 56 ==> bits@[j] == chosen_bit(key, j),
            round < 16,
            group < 8,
            w == gather(key, round as int, group as int, k as nat),
        decreases 6 - k,
    {
        let i: usize = 6 * group + k as usize;
        let half: usize = if i < 24 {
            0
        } else {
            28
        };
        let from: usize = half + ((PC2[i] as usize - 1) + BIT_SHIFTS[round] as usize) % 28;
        w = w | (bits[from] << (31 - k));
        k += 1;
    }
    if group == 0 {
        (w << 1) | (w >> 31)
    } else if group == 7 {
        (w << 5) | (w >> 27)
    } else {
        w >> (4 * (group as u32 - 1) + 3)
    }
}

/// Derives the sixteen subkeys of a 64-bit key.
pub fn getSubKeys(key: &[u32]) -> (r: Result<Vec<u32>, CipherError>)
    ensures
        key@.len() != 2 ==> r == Err::<Vec<u32>, CipherError>(CipherError::InvalidKeySize),
        key@.len() == 2 ==> (r matches Ok(sk) && sk@ == subkeys(key@)),
{
    if key.len() != 2 {
        return Err(CipherError::InvalidKeySize);
    }
    let bits = chosen_bits(key);
    let mut sk: Vec<u32> = Vec::new();
    let mut i: usize = 0;
    while i < 128
        invariant
            i <= 128,
            bits@.len() == 56,
            forall|j: int| 0 <= j < 56 ==> bits@[j] == chosen_bit(key@, j),
            sk@.len() == i,
            forall|m: int| 0 <= m < i ==> sk@[m] == selector_word(key@, m / 8, m % 8),
        decreases 128 - i,
    {
        sk.push(selector_of(&bits, Ghost(key@), i / 8, i % 8));
        i += 1;
    }
    assert(sk@ =~= subkeys(key@));
    Ok(sk)
}

/// The subkeys in reverse round order.
pub fn getInvSubKeys(sk: &Vec<u32>) -> (inv: Vec<u32>)
    requires
        sk@.len() == 128,
    ensures
        inv@ == reversed(sk@),
{
    let mut inv: Vec<u32> = Vec::new();
    let mut i: usize = 0;
    while i < 128
        invariant
            i <= 128,
            sk@.len() == 128,
            inv@.len() == i,
            forall|m: int| 0 <= m < i ==> inv@[m] == sk@[8 * (15 - m / 8) + m % 8],
        decreases 128 - i,
    {
        inv.push(sk[8 * (15 - i / 8) + i % 8]);
        i += 1;
    }
    assert(inv@ =~= reversed(sk@));
    inv
}

} // verus!
