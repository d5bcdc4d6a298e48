use vstd::prelude::*;

verus! {

/// Why a request was turned down. A request that is turned down leaves the
/// caller's buffer as it was.
#[derive(Clone, Copy, Debug, PartialEq, Eq, Structural)]
pub enum CipherError {
    /// The key length is outside the cipher's supported set.
    InvalidKeySize,
    /// The mode tag names none of the five chaining modes.
    UnsupportedMode,
    /// The block size is not the cipher's, or the word count is not a
    /// multiple of it.
    MisalignedInput,
    /// The request addresses words past the end of what was supplied.
    OutOfBounds,
}

impl CipherError {
    /// A short description of the error.
    pub fn message(&self) -> (text: &'static str)
        ensures
            text@ == match *self {
                CipherError::InvalidKeySize => "invalid key size"@,
                CipherError::UnsupportedMode => "unsupported mode"@,
                CipherError::MisalignedInput => "misaligned input"@,
                CipherError::OutOfBounds => "out of bounds"@,
            },
    {
        match self {
            CipherError::InvalidKeySize => "invalid key size",
            CipherError::UnsupportedMode => "unsupported mode",
            CipherError::MisalignedInput => "misaligned input",
            CipherError::OutOfBounds => "out of bounds",
        }
    }
}

} // verus!
