//! RC4: the classic 256-entry permutation cipher, one byte per step.

use vstd::prelude::*;

use crate::errors::InitError;
use crate::ksa::{ksa_pass, lemma_ksa_pass_permutation, run_ksa_pass, valid_key};
use crate::table::{
    identity_table, identity_vec, is_permutation, lemma_identity_is_permutation,
    lemma_swap_preserves_permutation, swap_entries, swapped,
};

verus! {

/// The table left by the single key-scheduling pass over the identity
/// table; the indices are reset to zero afterwards.
pub open spec fn rc4_key_schedule(key: Seq<u8>) -> Seq<u8> {
    ksa_pass(0u8, identity_table(), key, 256).1
}

/// One generate step from `(i, j, table)`: returns the stepped state
/// and the emitted byte.
pub open spec fn rc4_step(st: (u8, u8, Seq<u8>)) -> ((u8, u8, Seq<u8>), u8) {
    let i2 = st.0.wrapping_add(1);
    let j2 = st.1.wrapping_add(st.2[i2 as int]);
    let t2 = swapped(st.2, i2 as int, j2 as int);
    let out = t2[t2[i2 as int].wrapping_add(t2[j2 as int]) as int];
    ((i2, j2, t2), out)
}

/// The state after the key schedule and `n` generate steps.
pub open spec fn rc4_state(key: Seq<u8>, n: nat) -> (u8, u8, Seq<u8>)
    decreases n,
{
    if n == 0 {
        (0u8, 0u8, rc4_key_schedule(key))
    } else {
        rc4_step(rc4_state(key, (n - 1) as nat)).0
    }
}

/// The byte emitted by generate step `n` (counting from zero).
pub open spec fn rc4_byte(key: Seq<u8>, n: nat) -> u8 {
    rc4_step(rc4_state(key, n)).1
}

/// The first `n` keystream bytes.
pub open spec fn rc4_keystream(key: Seq<u8>, n: nat) -> Seq<u8> {
    Seq::new(n, |k: int| rc4_byte(key, k as nat))
}

/// Permutation invariant: after the key schedule and any number of
/// generate steps, the table still holds every byte value once.
pub proof fn lemma_rc4_state_permutation(key: Seq<u8>, n: nat)
    ensures
        is_permutation(rc4_state(key, n).2),
    decreases n,
{
    if n == 0 {
        lemma_identity_is_permutation();
        lemma_ksa_pass_permutation(0u8, identity_table(), key, 256);
    } else {
        lemma_rc4_state_permutation(key, (n - 1) as nat);
        let st = rc4_state(key, (n - 1) as nat);
        let i2 = st.0.wrapping_add(1);
        let j2 = st.1.wrapping_add(st.2[i2 as int]);
        lemma_swap_preserves_permutation(st.2, i2 as int, j2 as int);
    }
}

/// Determinism: the keystream is a function of the key alone, so two
/// generators built from equal keys emit equal streams.
pub proof fn lemma_rc4_deterministic(key1: Seq<u8>, key2: Seq<u8>, n: nat)
    requires
        key1 == key2,
    ensures
        rc4_keystream(key1, n) == rc4_keystream(key2, n),
{
}

/// An RC4 keystream generator.
pub struct RC4 {
    /// Step index.
    pub i: u8,
    /// Running accumulator.
    pub j: u8,
    /// The 256-entry permutation table.
    pub state: Vec<u8>,
    /// The key the generator was built from.
    pub key: Ghost<Seq<u8>>,
    /// How many generate steps have run.
    pub pos: Ghost<nat>,
}

impl RC4 {
    /// The generator tracks the state that its key and step count
    /// determine; its table is always a permutation.
    pub open spec fn wf(&self) -> bool {
        &&& valid_key(self.key@)
        &&& (self.i, self.j, self.state@) == rc4_state(self.key@, self.pos@)
        &&& is_permutation(self.state@)
    }

    /// Builds a generator from `key`: identity table, one scheduling
    /// pass, indices reset to zero. Rejects an empty or oversized key.
    pub fn new(key: &Vec<u8>) -> (r: Result<RC4, InitError>)
        ensures
            r is Ok <==> valid_key(key@),
            match r {
                Ok(c) => c.wf() && c.key@ == key@ && c.pos@ == 0,
                Err(InitError::EmptyKey) => key@.len() == 0,
                Err(InitError::KeyTooLong) => key@.len() > 256,
                Err(InitError::IvLengthMismatch) => false,
            },
    {
        if key.len() == 0 {
            return Err(InitError::EmptyKey);
        }
        if key.len() > 256 {
            return Err(InitError::KeyTooLong);
        }
        let mut table = identity_vec();
        let _scheduled_j = run_ksa_pass(0, &mut table, key);
        proof {
            lemma_identity_is_permutation();
            lemma_ksa_pass_permutation(0u8, identity_table(), key@, 256);
        }
        Ok(RC4 { i: 0, j: 0, state: table, key: Ghost(key@), pos: Ghost(0nat) })
    }

    /// Emits the next keystream byte: advance `i`, absorb into `j`,
    /// swap, and read the table at the sum of the swapped entries.
    pub fn update(&mut self) -> (out: u8)
        requires
            old(self).wf(),
        ensures
            final(self).wf(),
            final(self).key@ == old(self).key@,
            final(self).pos@ == old(self).pos@ + 1,
            out == rc4_byte(old(self).key@, old(self).pos@),
    {
        let ghost p0: nat = self.pos@;
        self.i = self.i.wrapping_add(1);
        self.j = self.j.wrapping_add(self.state[self.i as usize]);
        swap_entries(&mut self.state, self.i as usize, self.j as usize);
        let out = self.state[self.state[self.i as usize].wrapping_add(self.state[self.j as usize])
            as usize];
        self.pos = Ghost((p0 + 1) as nat);
        proof {
            let stepped = rc4_step(rc4_state(self.key@, p0));
            assert((self.i, self.j, self.state@) == stepped.0);
            assert(rc4_state(self.key@, self.pos@) == stepped.0);
            lemma_rc4_state_permutation(self.key@, self.pos@);
        }
        out
    }
}

} // verus!
