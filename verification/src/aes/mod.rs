//! AES on blocks of four 32-bit words, with a key of 4, 6 or 8 words.
pub mod tables;
pub mod algebra;
pub mod schedule;
pub mod block;
pub mod laws;

use crate::aes::block::{decryptor, encryptor, AesPass};
use crate::aes::schedule::{
    getInvKeySchedules, getKeySchedules, inv_key_schedule, key_error, key_schedule,
};
use crate::aes::tables::AesTables;
use crate::error::CipherError;
use crate::mode::{
    mode_of_tag, parse_mode, pick, process, refused, request_error, served, uses_inverse,
    Direction, Mode,
};
use vstd::prelude::*;

verus! {

/// Why the engine turns a request down, if it does. The number of rounds
/// must be 10, 12 or 14, as a key of 4, 6 or 8 words asks for; then the
/// schedule that the call runs under must hold four words for each round
/// and four more; then the request is held against the block size of four
/// words, the data and the IV.
pub open spec fn engine_refusal(
    mode: Mode,
    n_rounds: nat,
    schedule_len: nat,
    block_size: nat,
    n_words: nat,
    iv_len: nat,
    data_len: nat,
) -> Option<CipherError> {
    if n_rounds != 10 && n_rounds != 12 && n_rounds != 14 {
        Some(CipherError::InvalidKeySize)
    } else if schedule_len < 4 * (n_rounds + 1) {
        Some(CipherError::OutOfBounds)
    } else {
        request_error(mode, 4, block_size, n_words, iv_len, data_len)
    }
}

/// Why a request to encrypt is turned down, if it is: the mode tag is read
/// first, then the engine decides.
pub open spec fn refusal(
    tag: Seq<char>,
    n_rounds: nat,
    schedule_len: nat,
    block_size: nat,
    n_words: nat,
    iv_len: nat,
    data_len: nat,
) -> Option<CipherError> {
    match mode_of_tag(tag) {
        None => Some(CipherError::UnsupportedMode),
        Some(m) => engine_refusal(m, n_rounds, schedule_len, block_size, n_words, iv_len, data_len),
    }
}

/// The length of the schedule that decryption in a mode runs under: that of
/// the schedule for decryption in ECB and CBC, that of the expanded key in
/// the other modes. The other schedule is not read, and nothing is asked of
/// it.
pub open spec fn schedule_read(mode: Mode, schedule_len: nat, inv_schedule_len: nat) -> nat {
    if uses_inverse(mode, Direction::Decrypt) {
        inv_schedule_len
    } else {
        schedule_len
    }
}

/// Why a request to decrypt is turned down, if it is: the mode tag is read
/// first, then the engine decides on the schedule that the mode runs under.
pub open spec fn decrypt_refusal(
    tag: Seq<char>,
    n_rounds: nat,
    schedule_len: nat,
    inv_schedule_len: nat,
    block_size: nat,
    n_words: nat,
    iv_len: nat,
    data_len: nat,
) -> Option<CipherError> {
    match mode_of_tag(tag) {
        None => Some(CipherError::UnsupportedMode),
        Some(m) => engine_refusal(
            m,
            n_rounds,
            schedule_read(m, schedule_len, inv_schedule_len),
            block_size,
            n_words,
            iv_len,
            data_len,
        ),
    }
}

impl AesTables {
    /// Encrypts the first `n_words` words of `data` in place and returns the
    /// chain state for the next call.
    pub fn encrypt(
        &self,
        mode: Mode,
        n_rounds: usize,
        n_words: usize,
        block_size: usize,
        iv: &[u32],
        data: &mut [u32],
        schedule: &[u32],
    ) -> (r: Result<Vec<u32>, CipherError>)
        ensures
            match engine_refusal(
                mode,
                n_rounds as nat,
                schedule@.len(),
                block_size as nat,
                n_words as nat,
                iv@.len(),
                old(data)@.len(),
            ) {
                Some(e) => refused(e, old(data)@, final(data)@, r),
                None => served(
                    mode,
                    Direction::Encrypt,
                    encryptor(schedule@, n_rounds as nat),
                    4,
                    n_words as nat,
                    iv@,
                    old(data)@,
                    final(data)@,
                    r,
                ),
            },
    {
        if n_rounds != 10 && n_rounds != 12 && n_rounds != 14 {
            return Err(CipherError::InvalidKeySize);
        }
        if schedule.len() < 4 * (n_rounds + 1) {
            return Err(CipherError::OutOfBounds);
        }
        let t = AesPass { tables: self, inverse: false, rounds: n_rounds, schedule };
        process(mode, Direction::Encrypt, &t, block_size, n_words, iv, data)
    }

    /// Decrypts the first `n_words` words of `data` in place and returns the
    /// chain state for the next call. ECB and CBC run the inverse cipher
    /// under `inv_schedule` and do not read `schedule`; the other modes run
    /// the cipher itself under `schedule` and do not read `inv_schedule`.
    pub fn decrypt(
        &self,
        mode: Mode,
        n_rounds: usize,
        n_words: usize,
        block_size: usize,
        iv: &[u32],
        data: &mut [u32],
        schedule: &[u32],
        inv_schedule: &[u32],
    ) -> (r: Result<Vec<u32>, CipherError>)
        ensures
            match engine_refusal(
                mode,
                n_rounds as nat,
                schedule_read(mode, schedule@.len(), inv_schedule@.len()),
                block_size as nat,
                n_words as nat,
                iv@.len(),
                old(data)@.len(),
            ) {
                Some(e) => refused(e, old(data)@, final(data)@, r),
                None => served(
                    mode,
                    Direction::Decrypt,
                    pick(
                        mode,
                        Direction::Decrypt,
                        encryptor(schedule@, n_rounds as nat),
                        decryptor(inv_schedule@, n_rounds as nat),
                    ),
                    4,
                    n_words as nat,
                    iv@,
                    old(data)@,
                    final(data)@,
                    r,
                ),
            },
    {
        if n_rounds != 10 && n_rounds != 12 && n_rounds != 14 {
            return Err(CipherError::InvalidKeySize);
        }
        if mode.needs_inverse(Direction::Decrypt) {
            if inv_schedule.len() < 4 * (n_rounds + 1) {
                return Err(CipherError::OutOfBounds);
            }
            let t = AesPass {
                tables: self,
                inverse: true,
                rounds: n_rounds,
                schedule: inv_schedule,
            };
            process(mode, Direction::Decrypt, &t, block_size, n_words, iv, data)
        } else {
            if schedule.len() < 4 * (n_rounds + 1) {
                return Err(CipherError::OutOfBounds);
            }
            let t = AesPass { tables: self, inverse: false, rounds: n_rounds, schedule };
            process(mode, Direction::Decrypt, &t, block_size, n_words, iv, data)
        }
    }
}

/// Expands the first `keySize` words of `keyWords`, a key of 4, 6 or 8
/// words, into the round keys.
pub fn getKeySchedule(keySize: u32, keyWords: &[u32]) -> (r: Result<Vec<u32>, CipherError>)
    ensures
        match key_error(keyWords@.len(), keySize as nat) {
            Some(e) => r == Err::<Vec<u32>, CipherError>(e),
            None => r matches Ok(ks) && ks@ == key_schedule(keyWords@.take(keySize as int)),
        },
{
    getKeySchedules(keySize, keyWords)
}

/// Derives the schedule that decryption runs under from the first `keySize`
/// words of `keyWords`.
pub fn getInvKeySchedule(keySize: u32, keyWords: &[u32]) -> (r: Result<Vec<u32>, CipherError>)
    ensures
        match key_error(keyWords@.len(), keySize as nat) {
            Some(e) => r == Err::<Vec<u32>, CipherError>(e),
            None => r matches Ok(inv) && inv@ == inv_key_schedule(keyWords@.take(keySize as int)),
        },
{
    let ks = match getKeySchedules(keySize, keyWords) {
        Ok(ks) => ks,
        Err(e) => {
            return Err(e);
        },
    };
    let tables = AesTables::new();
    Ok(getInvKeySchedules(&tables, &ks))
}

/// Encrypts the first `nWordsReady` words of `dataWords` in place with AES
/// in the mode that the tag names, under an expanded key, and returns the
/// chain state for the next call.
pub fn doEncrypt(
    mode: &str,
    nRounds: usize,
    nWordsReady: usize,
    blockSize: usize,
    iv: &[u32],
    dataWords: &mut [u32],
    keySchedule: &[u32],
) -> (r: Result<Vec<u32>, CipherError>)
    ensures
        match refusal(
            mode@,
            nRounds as nat,
            keySchedule@.len(),
            blockSize as nat,
            nWordsReady as nat,
            iv@.len(),
            old(dataWords)@.len(),
        ) {
            Some(e) => refused(e, old(dataWords)@, final(dataWords)@, r),
            None => served(
                mode_of_tag(mode@).unwrap(),
                Direction::Encrypt,
                encryptor(keySchedule@, nRounds as nat),
                4,
                nWordsReady as nat,
                iv@,
                old(dataWords)@,
                final(dataWords)@,
                r,
            ),
        },
{
    let m = match parse_mode(mode) {
        Ok(m) => m,
        Err(e) => {
            return Err(e);
        },
    };
    let tables = AesTables::new();
    tables.encrypt(m, nRounds, nWordsReady, blockSize, iv, dataWords, keySchedule)
}

/// Decrypts the first `nWordsReady` words of `dataWords` in place with AES
/// in the mode that the tag names, and returns the chain state for the next
/// call. ECB and CBC run under `invKeySchedule` and do not read
/// `keySchedule`; the other modes run under `keySchedule` and do not read
/// `invKeySchedule`.
pub fn doDecrypt(
    mode: &str,
    nRounds: usize,
    nWordsReady: usize,
    blockSize: usize,
    iv: &[u32],
    dataWords: &mut [u32],
    keySchedule: &[u32],
    invKeySchedule: &[u32],
) -> (r: Result<Vec<u32>, CipherError>)
    ensures
        match decrypt_refusal(
            mode@,
            nRounds as nat,
            keySchedule@.len(),
            invKeySchedule@.len(),
            blockSize as nat,
            nWordsReady as nat,
            iv@.len(),
            old(dataWords)@.len(),
        ) {
            Some(e) => refused(e, old(dataWords)@, final(dataWords)@, r),
            None => served(
                mode_of_tag(mode@).unwrap(),
                Direction::Decrypt,
                pick(
                    mode_of_tag(mode@).unwrap(),
                    Direction::Decrypt,
                    encryptor(keySchedule@, nRounds as nat),
                    decryptor(invKeySchedule@, nRounds as nat),
                ),
                4,
                nWordsReady as nat,
                iv@,
                old(dataWords)@,
                final(dataWords)@,
                r,
            ),
        },
{
    let m = match parse_mode(mode) {
        Ok(m) => m,
        Err(e) => {
            return Err(e);
        },
    };
    let tables = AesTables::new();
    tables.decrypt(m, nRounds, nWordsReady, blockSize, iv, dataWords, keySchedule, invKeySchedule)
}

} // verus!
