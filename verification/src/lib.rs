//! Block-cipher primitives that are driven block by block across repeated
//! calls: AES, DES / Triple-DES and Blowfish, their key schedules, and the
//! chaining modes (ECB, CBC, CFB, OFB, CTR) that thread a small chain state
//! from one call to the next.
//!
//! All data is handled as 32-bit words in each algorithm's own bit order.
//! Every request is either served in full or turned down with a
//! [`error::CipherError`], and a request that is turned down changes nothing.
//!
//! The laws that hold of the modes whatever the cipher are in [`mode_laws`];
//! each cipher's module adds what holds of that cipher. The module
//! [`keccak`] holds the constants of the Keccak permutation.
#![allow(non_snake_case)]
#![allow(non_upper_case_globals)]

pub mod error;
pub mod words;
pub mod mode;
pub mod mode_laws;
pub mod aes;
pub mod des;
pub mod blowfish;
pub mod keccak;
