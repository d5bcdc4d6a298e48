//! DES and Triple-DES on blocks of two 32-bit words, with a 64-bit key of
//! two words (of which 56 bits take effect).
//!
//! What holds whatever the key is in `laws`; `complement` holds the
//! complementation property.
pub mod tables;
pub mod schedule;
pub mod block;
pub mod laws;
pub mod complement;

use crate::des::block::{pass, three_passes, DesPass, TripleDesPass};
use crate::des::schedule::{getInvSubKeys, getSubKeys, reversed, subkeys};
use crate::error::CipherError;
use crate::mode::{
    mode_of_tag, parse_mode, pick, process, refused, request_error, served, Direction,
};
use vstd::prelude::*;

verus! {

/// Single DES encryption of a block under a key.
pub open spec fn encryptor(key: Seq<u32>) -> spec_fn(Seq<u32>) -> Seq<u32> {
    pass(subkeys(key))
}

/// Single DES decryption: the same pass with the subkeys in reverse round
/// order.
pub open spec fn decryptor(key: Seq<u32>) -> spec_fn(Seq<u32>) -> Seq<u32> {
    pass(reversed(subkeys(key)))
}

/// Triple-DES encryption: encrypt under the first key, decrypt under the
/// second, encrypt under the third.
pub open spec fn triple_encryptor(key1: Seq<u32>, key2: Seq<u32>, key3: Seq<u32>) -> spec_fn(
    Seq<u32>,
) -> Seq<u32> {
    three_passes(subkeys(key1), reversed(subkeys(key2)), subkeys(key3))
}

/// Triple-DES decryption: decrypt under the third key, encrypt under the
/// second, decrypt under the first.
pub open spec fn triple_decryptor(key1: Seq<u32>, key2: Seq<u32>, key3: Seq<u32>) -> spec_fn(
    Seq<u32>,
) -> Seq<u32> {
    three_passes(reversed(subkeys(key3)), subkeys(key2), reversed(subkeys(key1)))
}

/// Why a request is turned down, if it is. The mode tag is read first, then
/// the keys are measured (each must be two words), then the request is held
/// against the block size of two words, the data and the IV.
pub open spec fn refusal(
    tag: Seq<char>,
    keys_fit: bool,
    block_size: nat,
    n_words: nat,
    iv_len: nat,
    data_len: nat,
) -> Option<CipherError> {
    match mode_of_tag(tag) {
        None => Some(CipherError::UnsupportedMode),
        Some(m) => if !keys_fit {
            Some(CipherError::InvalidKeySize)
        } else {
            request_error(m, 2, block_size, n_words, iv_len, data_len)
        },
    }
}

/// Encrypts the first `nWordsReady` words of `dataWords` in place with DES
/// in the mode that the tag names, and returns the chain state for the next
/// call.
pub fn doEncrypt(
    mode: &str,
    nWordsReady: usize,
    blockSize: usize,
    iv: &[u32],
    dataWords: &mut [u32],
    keyWords: &[u32],
) -> (r: Result<Vec<u32>, CipherError>)
    ensures
        match refusal(
            mode@,
            keyWords@.len() == 2,
            blockSize as nat,
            nWordsReady as nat,
            iv@.len(),
            old(dataWords)@.len(),
        ) {
            Some(e) => refused(e, old(dataWords)@, final(dataWords)@, r),
            None => served(
                mode_of_tag(mode@).unwrap(),
                Direction::Encrypt,
                encryptor(keyWords@),
                2,
                nWordsReady as nat,
                iv@,
                old(dataWords)@,
                final(dataWords)@,
                r,
            ),
        },
{
    let m = match parse_mode(mode) {
        Ok(m) => m,
        Err(e) => {
            return Err(e);
        },
    };
    let sk = match getSubKeys(keyWords) {
        Ok(sk) => sk,
        Err(e) => {
            return Err(e);
        },
    };
    process(m, Direction::Encrypt, &DesPass { subkeys: &sk }, blockSize, nWordsReady, iv, dataWords)
}

/// Decrypts the first `nWordsReady` words of `dataWords` in place with DES
/// in the mode that the tag names, and returns the chain state for the next
/// call.
pub fn doDecrypt(
    mode: &str,
    nWordsReady: usize,
    blockSize: usize,
    iv: &[u32],
    dataWords: &mut [u32],
    keyWords: &[u32],
) -> (r: Result<Vec<u32>, CipherError>)
    ensures
        match refusal(
            mode@,
            keyWords@.len() == 2,
            blockSize as nat,
            nWordsReady as nat,
            iv@.len(),
            old(dataWords)@.len(),
        ) {
            Some(e) => refused(e, old(dataWords)@, final(dataWords)@, r),
            None => served(
                mode_of_tag(mode@).unwrap(),
                Direction::Decrypt,
                pick(
                    mode_of_tag(mode@).unwrap(),
                    Direction::Decrypt,
                    encryptor(keyWords@),
                    decryptor(keyWords@),
                ),
                2,
                nWordsReady as nat,
                iv@,
                old(dataWords)@,
                final(dataWords)@,
                r,
            ),
        },
{
    let m = match parse_mode(mode) {
        Ok(m) => m,
        Err(e) => {
            return Err(e);
        },
    };
    let sk = match getSubKeys(keyWords) {
        Ok(sk) => sk,
        Err(e) => {
            return Err(e);
        },
    };
    if m.needs_inverse(Direction::Decrypt) {
        let inv = getInvSubKeys(&sk);
        process(
            m,
            Direction::Decrypt,
            &DesPass { subkeys: &inv },
            blockSize,
            nWordsReady,
            iv,
            dataWords,
        )
    } else {
        process(
            m,
            Direction::Decrypt,
            &DesPass { subkeys: &sk },
            blockSize,
            nWordsReady,
            iv,
            dataWords,
        )
    }
}

/// Encrypts the first `nWordsReady` words of `dataWords` in place with
/// Triple-DES under three keys, and returns the chain state for the next
/// call.
pub fn tripleEncrypt(
    mode: &str,
    nWordsReady: usize,
    blockSize: usize,
    iv: &[u32],
    dataWords: &mut [u32],
    keyWords1: &[u32],
    keyWords2: &[u32],
    keyWords3: &[u32],
) -> (r: Result<Vec<u32>, CipherError>)
    ensures
        match refusal(
            mode@,
            keyWords1@.len() == 2 && keyWords2@.len() == 2 && keyWords3@.len() == 2,
            blockSize as nat,
            nWordsReady as nat,
            iv@.len(),
            old(dataWords)@.len(),
        ) {
            Some(e) => refused(e, old(dataWords)@, final(dataWords)@, r),
            None => served(
                mode_of_tag(mode@).unwrap(),
                Direction::Encrypt,
                triple_encryptor(keyWords1@, keyWords2@, keyWords3@),
                2,
                nWordsReady as nat,
                iv@,
                old(dataWords)@,
                final(dataWords)@,
                r,
            ),
        },
{
    let m = match parse_mode(mode) {
        Ok(m) => m,
        Err(e) => {
            return Err(e);
        },
    };
    let sk1 = match getSubKeys(keyWords1) {
        Ok(sk) => sk,
        Err(e) => {
            return Err(e);
        },
    };
    let sk2 = match getSubKeys(keyWords2) {
        Ok(sk) => sk,
        Err(e) => {
            return Err(e);
        },
    };
    let sk3 = match getSubKeys(keyWords3) {
        Ok(sk) => sk,
        Err(e) => {
            return Err(e);
        },
    };
    let inv2 = getInvSubKeys(&sk2);
    let t = TripleDesPass { first: &sk1, second: &inv2, third: &sk3 };
    process(m, Direction::Encrypt, &t, blockSize, nWordsReady, iv, dataWords)
}

/// Decrypts the first `nWordsReady` words of `dataWords` in place with
/// Triple-DES under three keys, and returns the chain state for the next
/// call.
pub fn tripleDecrypt(
    mode: &str,
    nWordsReady: usize,
    blockSize: usize,
    iv: &[u32],
    dataWords: &mut [u32],
    keyWords1: &[u32],
    keyWords2: &[u32],
    keyWords3: &[u32],
) -> (r: Result<Vec<u32>, CipherError>)
    ensures
        match refusal(
            mode@,
            keyWords1@.len() == 2 && keyWords2@.len() == 2 && keyWords3@.len() == 2,
            blockSize as nat,
            nWordsReady as nat,
            iv@.len(),
            old(dataWords)@.len(),
        ) {
            Some(e) => refused(e, old(dataWords)@, final(dataWords)@, r),
            None => served(
                mode_of_tag(mode@).unwrap(),
                Direction::Decrypt,
                pick(
                    mode_of_tag(mode@).unwrap(),
                    Direction::Decrypt,
                    triple_encryptor(keyWords1@, keyWords2@, keyWords3@),
                    triple_decryptor(keyWords1@, keyWords2@, keyWords3@),
                ),
                2,
                nWordsReady as nat,
                iv@,
                old(dataWords)@,
                final(dataWords)@,
                r,
            ),
        },
{
    let m = match parse_mode(mode) {
        Ok(m) => m,
        Err(e) => {
            return Err(e);
        },
    };
    let sk1 = match getSubKeys(keyWords1) {
        Ok(sk) => sk,
        Err(e) => {
            return Err(e);
        },
    };
    let sk2 = match getSubKeys(keyWords2) {
        Ok(sk) => sk,
        Err(e) => {
            return Err(e);
        },
    };
    let sk3 = match getSubKeys(keyWords3) {
        Ok(sk) => sk,
        Err(e) => {
            return Err(e);
        },
    };
    if m.needs_inverse(Direction::Decrypt) {
        let inv1 = getInvSubKeys(&sk1);
        let inv3 = getInvSubKeys(&sk3);
        let t = TripleDesPass { first: &inv3, second: &sk2, third: &inv1 };
        process(m, Direction::Decrypt, &t, blockSize, nWordsReady, iv, dataWords)
    } else {
        let inv2 = getInvSubKeys(&sk2);
        let t = TripleDesPass { first: &sk1, second: &inv2, third: &sk3 };
        process(m, Direction::Decrypt, &t, blockSize, nWordsReady, iv, dataWords)
    }
}

} // verus!
