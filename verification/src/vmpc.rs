//! VMPC: a single 256-entry permutation with a triple-indirection
//! output function and a six-pass key/IV schedule. The step index `i`
//! is deliberately never advanced by generation in this design.
//!
//! The generator is exposed under two names, [`VMPC`] and [`Vmpc`],
//! with identical behavior; [`Vmpc`] forwards to [`VMPC`].

use vstd::prelude::*;

use crate::errors::InitError;
use crate::ksa::{ksa_pass, lemma_ksa_pass_permutation, run_ksa_pass, valid_key};
use crate::table::{
    identity_table, identity_vec, is_permutation, lemma_identity_is_permutation,
    lemma_swap_preserves_permutation, swap_entries, swapped,
};

verus! {

/// The table left by three scheduling passes of the key and then three
/// of the IV over the identity table, the accumulator carrying across
/// all six passes; paired with the accumulator those passes end with.
pub open spec fn vmpc_key_schedule(key: Seq<u8>, iv: Seq<u8>) -> (u8, Seq<u8>) {
    let p1 = ksa_pass(0u8, identity_table(), key, 256);
    let p2 = ksa_pass(p1.0, p1.1, key, 256);
    let p3 = ksa_pass(p2.0, p2.1, key, 256);
    let p4 = ksa_pass(p3.0, p3.1, iv, 256);
    let p5 = ksa_pass(p4.0, p4.1, iv, 256);
    ksa_pass(p5.0, p5.1, iv, 256)
}

/// One generate step from `(i, j, table)`: the output is the
/// triple-indirection lookup computed before the swap, and `i` is not
/// advanced.
pub open spec fn vmpc_step(st: (u8, u8, Seq<u8>)) -> ((u8, u8, Seq<u8>), u8) {
    let a = st.2[st.0 as int];
    let j2 = st.2[st.1 as int].wrapping_add(a);
    let out = st.2[st.2[st.2[j2 as int].wrapping_add(1) as int] as int];
    ((st.0, j2, swapped(st.2, st.0 as int, j2 as int)), out)
}

/// The state after the key schedule (indices reset to zero) and `n`
/// generate steps.
pub open spec fn vmpc_state(key: Seq<u8>, iv: Seq<u8>, n: nat) -> (u8, u8, Seq<u8>)
    decreases n,
{
    if n == 0 {
        (0u8, 0u8, vmpc_key_schedule(key, iv).1)
    } else {
        vmpc_step(vmpc_state(key, iv, (n - 1) as nat)).0
    }
}

/// The byte emitted by generate step `n` (counting from zero).
pub open spec fn vmpc_byte(key: Seq<u8>, iv: Seq<u8>, n: nat) -> u8 {
    vmpc_step(vmpc_state(key, iv, n)).1
}

/// The first `n` keystream bytes.
pub open spec fn vmpc_keystream(key: Seq<u8>, iv: Seq<u8>, n: nat) -> Seq<u8> {
    Seq::new(n, |k: int| vmpc_byte(key, iv, k as nat))
}

/// Permutation invariant: after the schedule and any number of
/// generate steps, the table still holds every byte value once.
pub proof fn lemma_vmpc_state_permutation(key: Seq<u8>, iv: Seq<u8>, n: nat)
    ensures
        is_permutation(vmpc_state(key, iv, n).2),
    decreases n,
{
    if n == 0 {
        lemma_identity_is_permutation();
        let p1 = ksa_pass(0u8, identity_table(), key, 256);
        lemma_ksa_pass_permutation(0u8, identity_table(), key, 256);
        let p2 = ksa_pass(p1.0, p1.1, key, 256);
        lemma_ksa_pass_permutation(p1.0, p1.1, key, 256);
        let p3 = ksa_pass(p2.0, p2.1, key, 256);
        lemma_ksa_pass_permutation(p2.0, p2.1, key, 256);
        let p4 = ksa_pass(p3.0, p3.1, iv, 256);
        lemma_ksa_pass_permutation(p3.0, p3.1, iv, 256);
        let p5 = ksa_pass(p4.0, p4.1, iv, 256);
        lemma_ksa_pass_permutation(p4.0, p4.1, iv, 256);
        lemma_ksa_pass_permutation(p5.0, p5.1, iv, 256);
    } else {
        lemma_vmpc_state_permutation(key, iv, (n - 1) as nat);
        let st = vmpc_state(key, iv, (n - 1) as nat);
        let j2 = st.2[st.1 as int].wrapping_add(st.2[st.0 as int]);
        lemma_swap_preserves_permutation(st.2, st.0 as int, j2 as int);
    }
}

/// Determinism: the keystream is a function of the key and IV alone.
pub proof fn lemma_vmpc_deterministic(
    key1: Seq<u8>,
    iv1: Seq<u8>,
    key2: Seq<u8>,
    iv2: Seq<u8>,
    n: nat,
)
    requires
        key1 == key2,
        iv1 == iv2,
    ensures
        vmpc_keystream(key1, iv1, n) == vmpc_keystream(key2, iv2, n),
{
}

/// A VMPC keystream generator.
pub struct VMPC {
    /// Step index; never advanced by generation in this design.
    pub i: u8,
    /// Running accumulator.
    pub j: u8,
    /// The 256-entry permutation table.
    pub state: Vec<u8>,
    /// The key the generator was built from.
    pub key: Ghost<Seq<u8>>,
    /// The IV the generator was built from.
    pub iv: Ghost<Seq<u8>>,
    /// How many generate steps have run.
    pub pos: Ghost<nat>,
}

impl VMPC {
    /// The generator tracks the state that its key, IV and step count
    /// determine; its table is always a permutation.
    pub open spec fn wf(&self) -> bool {
        &&& valid_key(self.key@)
        &&& self.iv@.len() == self.key@.len()
        &&& (self.i, self.j, self.state@) == vmpc_state(self.key@, self.iv@, self.pos@)
        &&& is_permutation(self.state@)
    }

    /// Builds a generator from `key` and `iv`: six scheduling passes,
    /// indices reset to zero. Rejects an empty or oversized key and an
    /// IV whose length differs from the key's.
    pub fn new(key: &Vec<u8>, iv: &Vec<u8>) -> (r: Result<VMPC, InitError>)
        ensures
            r is Ok <==> valid_key(key@) && iv@.len() == key@.len(),
            match r {
                Ok(c) => c.wf() && c.key@ == key@ && c.iv@ == iv@ && c.pos@ == 0,
                Err(InitError::EmptyKey) => key@.len() == 0,
                Err(InitError::KeyTooLong) => key@.len() > 256,
                Err(InitError::IvLengthMismatch) => valid_key(key@) && iv@.len() != key@.len(),
            },
    {
        if key.len() == 0 {
            return Err(InitError::EmptyKey);
        }
        if key.len() > 256 {
            return Err(InitError::KeyTooLong);
        }
        if iv.len() != key.len() {
            return Err(InitError::IvLengthMismatch);
        }
        let mut table = identity_vec();
        let mut j: u8 = 0;
        j = run_ksa_pass(j, &mut table, key);
        j = run_ksa_pass(j, &mut table, key);
        j = run_ksa_pass(j, &mut table, key);
        j = run_ksa_pass(j, &mut table, iv);
        j = run_ksa_pass(j, &mut table, iv);
        let _scheduled_j = run_ksa_pass(j, &mut table, iv);
        proof {
            lemma_vmpc_state_permutation(key@, iv@, 0);
        }
        Ok(
            VMPC {
                i: 0,
                j: 0,
                state: table,
                key: Ghost(key@),
                iv: Ghost(iv@),
                pos: Ghost(0nat),
            },
        )
    }

    /// Emits the next keystream byte through the triple-indirection
    /// lookup, then swaps; `i` stays where it is.
    pub fn update(&mut self) -> (out: u8)
        requires
            old(self).wf(),
        ensures
            final(self).wf(),
            final(self).key@ == old(self).key@,
            final(self).iv@ == old(self).iv@,
            final(self).pos@ == old(self).pos@ + 1,
            out == vmpc_byte(old(self).key@, old(self).iv@, old(self).pos@),
    {
        let ghost p0: nat = self.pos@;
        let a = self.state[self.i as usize];
        self.j = self.state[self.j as usize].wrapping_add(a);
        let out = self.state[self.state[self.state[self.j as usize].wrapping_add(1) as usize]
            as usize];
        swap_entries(&mut self.state, self.i as usize, self.j as usize);
        self.pos = Ghost((p0 + 1) as nat);
        proof {
            let stepped = vmpc_step(vmpc_state(self.key@, self.iv@, p0));
            assert((self.i, self.j, self.state@) == stepped.0);
            assert(vmpc_state(self.key@, self.iv@, self.pos@) == stepped.0);
            lemma_vmpc_state_permutation(self.key@, self.iv@, self.pos@);
        }
        out
    }
}

/// A second handle on the VMPC generator, identical in behavior to
/// [`VMPC`].
pub struct Vmpc {
    /// The generator doing the work.
    pub cipher: VMPC,
}

impl Vmpc {
    /// See [`VMPC::wf`].
    pub open spec fn wf(&self) -> bool {
        self.cipher.wf()
    }

    /// Builds a generator from `key` and `iv`; see [`VMPC::new`].
    pub fn new(key: &Vec<u8>, iv: &Vec<u8>) -> (r: Result<Vmpc, InitError>)
        ensures
            r is Ok <==> valid_key(key@) && iv@.len() == key@.len(),
            match r {
                Ok(c) => c.wf() && c.cipher.key@ == key@ && c.cipher.iv@ == iv@ && c.cipher.pos@
                    == 0,
                Err(InitError::EmptyKey) => key@.len() == 0,
                Err(InitError::KeyTooLong) => key@.len() > 256,
                Err(InitError::IvLengthMismatch) => valid_key(key@) && iv@.len() != key@.len(),
            },
    {
        match VMPC::new(key, iv) {
            Ok(c) => Ok(Vmpc { cipher: c }),
            Err(e) => Err(e),
        }
    }

    /// Emits the next keystream byte; see [`VMPC::update`].
    pub fn update(&mut self) -> (out: u8)
        requires
            old(self).wf(),
        ensures
            final(self).wf(),
            final(self).cipher.key@ == old(self).cipher.key@,
            final(self).cipher.iv@ == old(self).cipher.iv@,
            final(self).cipher.pos@ == old(self).cipher.pos@ + 1,
            out == vmpc_byte(old(self).cipher.key@, old(self).cipher.iv@, old(self).cipher.pos@),
    {
        self.cipher.update()
    }
}

} // verus!
