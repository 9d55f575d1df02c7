//! The key-scheduling pass shared by the generators: a running
//! accumulator folds one byte of key material into the table at each of
//! the 256 positions, swapping as it goes. RC4 and RC4A run it once,
//! VMPC runs it six times, and RC4+ uses it as its first and (reindexed)
//! third scrambling layer.

use vstd::prelude::*;

use crate::table::{is_permutation, lemma_swap_preserves_permutation, swap_entries, swapped};

verus! {

/// A key is valid when it holds between 1 and 256 bytes.
pub open spec fn valid_key(key: Seq<u8>) -> bool {
    1 <= key.len() <= 256
}

/// One step of the scheduling pass at position `i`: the accumulator
/// absorbs `table[i]` and the next key byte, then `table[i]` is swapped
/// with the entry the accumulator points at.
pub open spec fn ksa_step(j: u8, table: Seq<u8>, key: Seq<u8>, i: int) -> (u8, Seq<u8>) {
    let j2 = j.wrapping_add(table[i].wrapping_add(key[i % (key.len() as int)]));
    (j2, swapped(table, i, j2 as int))
}

/// The first `n` steps of a scheduling pass, at positions `0 .. n`.
pub open spec fn ksa_pass(j: u8, table: Seq<u8>, key: Seq<u8>, n: int) -> (u8, Seq<u8>)
    decreases n,
{
    if n <= 0 {
        (j, table)
    } else {
        let prev = ksa_pass(j, table, key, n - 1);
        ksa_step(prev.0, prev.1, key, n - 1)
    }
}

/// A scheduling pass over a permutation leaves a permutation.
pub proof fn lemma_ksa_pass_permutation(j: u8, table: Seq<u8>, key: Seq<u8>, n: int)
    requires
        is_permutation(table),
        0 <= n <= 256,
    ensures
        is_permutation(ksa_pass(j, table, key, n).1),
    decreases n,
{
    if n > 0 {
        lemma_ksa_pass_permutation(j, table, key, n - 1);
        let prev = ksa_pass(j, table, key, n - 1);
        lemma_swap_preserves_permutation(prev.1, n - 1, ksa_step(prev.0, prev.1, key, n - 1).0 as int);
    }
}

/// Runs one full scheduling pass of `key` over `table`, starting from
/// accumulator `j`, and returns the accumulator it ends with.
pub fn run_ksa_pass(j: u8, table: &mut Vec<u8>, key: &Vec<u8>) -> (j2: u8)
    requires
        old(table)@.len() == 256,
        valid_key(key@),
    ensures
        (j2, final(table)@) == ksa_pass(j, old(table)@, key@, 256),
        final(table)@.len() == 256,
{
    let ghost t0: Seq<u8> = table@;
    let mut jj: u8 = j;
    let mut i: usize = 0;
    while i < 256
        invariant
            i <= 256,
            valid_key(key@),
            table@.len() == 256,
            (jj, table@) == ksa_pass(j, t0, key@, i as int),
        decreases 256 - i,
    {
        let ki = key[i % key.len()];
        jj = jj.wrapping_add(table[i].wrapping_add(ki));
        swap_entries(table, i, jj as usize);
        i = i + 1;
    }
    jj
}

} // verus!
