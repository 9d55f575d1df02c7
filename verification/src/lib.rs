//! Byte-oriented stream-cipher keystream generators: RC4, RC4+, RC4A,
//! VMPC, and Spritz.
//!
//! Each generator deterministically expands a secret key (and, for some
//! variants, an initialization vector) into an unbounded pseudorandom
//! keystream. Every generator carries a 256-entry byte table that is at
//! all times a permutation of the 256 byte values, and every index and
//! accumulator uses 8-bit wrap-around arithmetic.

pub mod errors;
pub mod ksa;
pub mod rc4;
pub mod rc4_plus;
pub mod rc4a;
pub mod spritz;
pub mod table;
pub mod vmpc;
