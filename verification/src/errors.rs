use vstd::prelude::*;

verus! {

/// Why construction of a generator was rejected.
///
/// Invalid construction parameters are the only error class in this
/// library: generation itself never fails.
#[derive(Clone, Copy, Debug, PartialEq, Eq, Structural)]
pub enum InitError {
    /// The key was empty.
    EmptyKey,
    /// The key was longer than 256 bytes.
    KeyTooLong,
    /// The generator takes an IV and its length differed from the key's.
    IvLengthMismatch,
}

} // verus!
