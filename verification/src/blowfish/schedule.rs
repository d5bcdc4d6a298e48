//! The Blowfish key schedule: the constants with the key mixed into the
//! P-array, then rewritten pair by pair with the cipher's own output, each
//! encryption running under the state that the encryptions before it left.
use crate::blowfish::block::{blowfishEncrypt, crypt_pair};
use crate::blowfish::tables::{getOrigP, getOrigS, orig_p, orig_s};
use crate::error::CipherError;
use vstd::prelude::*;

verus! {

/// The number of pairs that the bootstrap rewrites: 9 in the P-array and 512
/// in the S-boxes.
pub open spec fn bootstrap_steps() -> nat {
    521
}

/// The state before the bootstrap, P-array first and S-boxes behind it: the
/// constants, with the key's words mixed into the P-array over and over.
pub open spec fn keyed_start(key: Seq<u32>) -> Seq<u32> {
    Seq::new(
        1042,
        |i: int|
            if i < 18 {
                orig_p(i) ^ key[i % (key.len() as int)]
            } else {
                orig_s(i - 18)
            },
    )
}

/// What step `k` of the bootstrap encrypts: a block of zeros at first, then
/// the pair that the step before wrote.
pub open spec fn fed(state: Seq<u32>, k: nat) -> (u32, u32) {
    if k == 0 {
        (0, 0)
    } else {
        (state[2 * k - 2], state[2 * k - 1])
    }
}

/// Step `k` of the bootstrap: the pair at `2k` and `2k + 1` is overwritten
/// with the encryption, under the state as it stands, of what the step is
/// fed.
pub open spec fn bootstrap_step(state: Seq<u32>, k: nat) -> Seq<u32> {
    let out = crypt_pair(state.take(18), state.skip(18), fed(state, k));
    state.update(2 * k as int, out.0).update(2 * k as int + 1, out.1)
}

/// The state after the first `n` steps of the bootstrap.
pub open spec fn bootstrapped(start: Seq<u32>, n: nat) -> Seq<u32>
    decreases n,
{
    if n == 0 {
        start
    } else {
        bootstrap_step(bootstrapped(start, (n - 1) as nat), (n - 1) as nat)
    }
}

/// The key schedule of a key of 1 to 14 words: 18 words of P-array, then the
/// four S-boxes.
pub open spec fn key_state(key: Seq<u32>) -> Seq<u32> {
    bootstrapped(keyed_start(key), bootstrap_steps())
}

/// Why a key is turned down, if it is: its size in words must be from 1 to
/// 14, and the words must be there.
pub open spec fn key_error(key_len: nat, key_size: nat) -> Option<CipherError> {
    if key_size < 1 || key_size > 14 {
        Some(CipherError::InvalidKeySize)
    } else if key_len < key_size {
        Some(CipherError::OutOfBounds)
    } else {
        None
    }
}

proof fn lemma_bootstrap_keeps_length(start: Seq<u32>, n: nat)
    requires
        start.len() == 1042,
        n <= 521,
    ensures
        bootstrapped(start, n).len() == 1042,
    decreases n,
{
    if n > 0 {
        lemma_bootstrap_keeps_length(start, (n - 1) as nat);
    }
}

/// The key schedule has 1042 words.
pub proof fn lemma_key_state_length(key: Seq<u32>)
    ensures
        key_state(key).len() == 1042,
{
    lemma_bootstrap_keeps_length(keyed_start(key), 521);
}

/// Derives the key schedule from the first `keySize` words of `key`: 18
/// words of P-array, then 1024 words of S-boxes.
pub fn blowfishInit(key: &[u32], keySize: usize) -> (r: Result<Vec<u32>, CipherError>)
    ensures
        match key_error(key@.len(), keySize as nat) {
            Some(e) => r == Err::<Vec<u32>, CipherError>(e),
            None => r matches Ok(ctx) && ctx@ == key_state(key@.take(keySize as int)) && ctx@.len()
                == 1042,
        },
{
    if keySize < 1 || keySize > 14 {
        return Err(CipherError::InvalidKeySize);
    }
    if key.len() < keySize {
        return Err(CipherError::OutOfBounds);
    }
    let ghost k = key@.take(keySize as int);
    let ghost start = keyed_start(k);
    let mut pbox: Vec<u32> = Vec::new();
    let mut i: usize = 0;
    while i < 18
        invariant
            i <= 18,
            1 <= keySize <= key@.len(),
            k == key@.take(keySize as int),
            pbox@.len() == i,
            forall|j: int| 0 <= j < i ==> pbox@[j] == orig_p(j) ^ k[j % (keySize as int)],
        decreases 18 - i,
    {
        pbox.push(getOrigP(i) ^ key[i % keySize]);
        i += 1;
    }
    let mut sbox: Vec<u32> = Vec::new();
    let mut i: usize = 0;
    while i < 1024
        invariant
            i <= 1024,
            sbox@.len() == i,
            forall|j: int| 0 <= j < i ==> sbox@[j] == orig_s(j),
        decreases 1024 - i,
    {
        sbox.push(getOrigS(i));
        i += 1;
    }
    assert(pbox@ + sbox@ =~= start);
    let mut left: u32 = 0;
    let mut right: u32 = 0;
    let mut n: usize = 0;
    while n < 9
        invariant
            n <= 9,
            pbox@.len() == 18,
            sbox@.len() == 1024,
            pbox@ + sbox@ == bootstrapped(start, n as nat),
            (left, right) == fed(pbox@ + sbox@, n as nat),
        decreases 9 - n,
    {
        let ghost state = pbox@ + sbox@;
        assert(state.take(18) =~= pbox@);
        assert(state.skip(18) =~= sbox@);
        let out = blowfishEncrypt(pbox.as_slice(), sbox.as_slice(), left, right);
        left = out.0;
        right = out.1;
        pbox[2 * n] = left;
        pbox[2 * n + 1] = right;
        assert(pbox@ + sbox@ =~= bootstrap_step(state, n as nat));
        n += 1;
    }
    while n < 521
        invariant
            9 <= n <= 521,
            pbox@.len() == 18,
            sbox@.len() == 1024,
            pbox@ + sbox@ == bootstrapped(start, n as nat),
            (left, right) == fed(pbox@ + sbox@, n as nat),
        decreases 521 - n,
    {
        let ghost state = pbox@ + sbox@;
        assert(state.take(18) =~= pbox@);
        assert(state.skip(18) =~= sbox@);
        let out = blowfishEncrypt(pbox.as_slice(), sbox.as_slice(), left, right);
        left = out.0;
        right = out.1;
        sbox[2 * n - 18] = left;
        sbox[2 * n - 17] = right;
        assert(pbox@ + sbox@ =~= bootstrap_step(state, n as nat));
        n += 1;
    }
    let mut ctx: Vec<u32> = pbox;
    let mut i: usize = 0;
    while i < 1024
        invariant
            i <= 1024,
            sbox@.len() == 1024,
            ctx@.len() == 18 + i,
            ctx@ + sbox@.skip(i as int) == key_state(k),
        decreases 1024 - i,
    {
        let ghost before = ctx@;
        ctx.push(sbox[i]);
        i += 1;
        assert(ctx@ + sbox@.skip(i as int) =~= before + sbox@.skip(i - 1));
    }
    assert(ctx@ =~= ctx@ + sbox@.skip(1024));
    proof {
        lemma_key_state_length(k);
    }
    Ok(ctx)
}

} // verus!
