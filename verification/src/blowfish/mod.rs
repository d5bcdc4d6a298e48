//! Blowfish on blocks of two 32-bit words, with a key of 1 to 14 words
//! (32 to 448 bits).
pub mod tables;
pub mod block;
pub mod schedule;
pub mod laws;

pub use crate::blowfish::schedule::blowfishInit;

use crate::blowfish::block::{decryptor, encryptor, BlowfishForward, BlowfishInverse};
use crate::error::CipherError;
use crate::mode::{
    mode_of_tag, parse_mode, pick, process, refused, request_error, served, Direction,
};
use vstd::prelude::*;

verus! {

/// Why a request is turned down, if it is. The mode tag is read first; then
/// the key schedule must hold its 18 words of P-array and 1024 words of
/// S-boxes; then the request is held against the block size of two words,
/// the data and the IV.
pub open spec fn refusal(
    tag: Seq<char>,
    p_len: nat,
    s_len: nat,
    block_size: nat,
    n_words: nat,
    iv_len: nat,
    data_len: nat,
) -> Option<CipherError> {
    match mode_of_tag(tag) {
        None => Some(CipherError::UnsupportedMode),
        Some(m) => if p_len < 18 || s_len < 1024 {
            Some(CipherError::OutOfBounds)
        } else {
            request_error(m, 2, block_size, n_words, iv_len, data_len)
        },
    }
}

/// Encrypts the first `nWordsReady` words of `dataWords` in place with
/// Blowfish in the mode that the tag names, under the key schedule in `P`
/// and `S`, and returns the chain state for the next call.
pub fn doEncrypt(
    mode: &str,
    nWordsReady: usize,
    blockSize: usize,
    iv: &[u32],
    dataWords: &mut [u32],
    P: &[u32],
    S: &[u32],
) -> (r: Result<Vec<u32>, CipherError>)
    ensures
        match refusal(
            mode@,
            P@.len(),
            S@.len(),
            blockSize as nat,
            nWordsReady as nat,
            iv@.len(),
            old(dataWords)@.len(),
        ) {
            Some(e) => refused(e, old(dataWords)@, final(dataWords)@, r),
            None => served(
                mode_of_tag(mode@).unwrap(),
                Direction::Encrypt,
                encryptor(P@, S@),
                2,
                nWordsReady as nat,
                iv@,
                old(dataWords)@,
                final(dataWords)@,
                r,
            ),
        },
{
    let m = match parse_mode(mode) {
        Ok(m) => m,
        Err(e) => {
            return Err(e);
        },
    };
    if P.len() < 18 || S.len() < 1024 {
        return Err(CipherError::OutOfBounds);
    }
    let t = BlowfishForward { p: P, s: S };
    process(m, Direction::Encrypt, &t, blockSize, nWordsReady, iv, dataWords)
}

/// Decrypts the first `nWordsReady` words of `dataWords` in place with
/// Blowfish in the mode that the tag names, under the key schedule in `P`
/// and `S`, and returns the chain state for the next call.
pub fn doDecrypt(
    mode: &str,
    nWordsReady: usize,
    blockSize: usize,
    iv: &[u32],
    dataWords: &mut [u32],
    P: &[u32],
    S: &[u32],
) -> (r: Result<Vec<u32>, CipherError>)
    ensures
        match refusal(
            mode@,
            P@.len(),
            S@.len(),
            blockSize as nat,
            nWordsReady as nat,
            iv@.len(),
            old(dataWords)@.len(),
        ) {
            Some(e) => refused(e, old(dataWords)@, final(dataWords)@, r),
            None => served(
                mode_of_tag(mode@).unwrap(),
                Direction::Decrypt,
                pick(
                    mode_of_tag(mode@).unwrap(),
                    Direction::Decrypt,
                    encryptor(P@, S@),
                    decryptor(P@, S@),
                ),
                2,
                nWordsReady as nat,
                iv@,
                old(dataWords)@,
                final(dataWords)@,
                r,
            ),
        },
{
    let m = match parse_mode(mode) {
        Ok(m) => m,
        Err(e) => {
            return Err(e);
        },
    };
    if P.len() < 18 || S.len() < 1024 {
        return Err(CipherError::OutOfBounds);
    }
    if m.needs_inverse(Direction::Decrypt) {
        let t = BlowfishInverse { p: P, s: S };
        process(m, Direction::Decrypt, &t, blockSize, nWordsReady, iv, dataWords)
    } else {
        let t = BlowfishForward { p: P, s: S };
        process(m, Direction::Decrypt, &t, blockSize, nWordsReady, iv, dataWords)
    }
}

} // verus!
