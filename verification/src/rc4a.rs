//! RC4A: a dual-permutation RC4 variant that alternates updates across
//! two independent 256-entry tables and emits two bytes per step.

use vstd::prelude::*;

use crate::errors::InitError;
use crate::ksa::{ksa_pass, lemma_ksa_pass_permutation, run_ksa_pass, valid_key};
use crate::table::{
    identity_table, identity_vec, is_permutation, lemma_identity_is_permutation,
    lemma_swap_preserves_permutation, swap_entries, swapped,
};

verus! {

/// The generator's abstract state: the shared step index, one
/// accumulator and one table per half-step.
pub struct Rc4aCore {
    /// Step index, shared by both half-steps.
    pub i: u8,
    /// Accumulator of the first half-step.
    pub j1: u8,
    /// Accumulator of the second half-step.
    pub j2: u8,
    /// Table of the first half-step.
    pub t1: Seq<u8>,
    /// Table of the second half-step.
    pub t2: Seq<u8>,
}

/// `s` read back to front.
pub open spec fn reversed(s: Seq<u8>) -> Seq<u8> {
    Seq::new(s.len(), |k: int| s[s.len() - 1 - k])
}

/// Reversing a permutation leaves a permutation.
pub proof fn lemma_reversed_permutation(s: Seq<u8>)
    requires
        is_permutation(s),
    ensures
        is_permutation(reversed(s)),
{
    let r = reversed(s);
    assert forall|b: u8| #[trigger] r.contains(b) by {
        assert(s.contains(b));
        let k = choose|k: int| 0 <= k < s.len() && s[k] == b;
        assert(r[255 - k] == b);
    }
}

/// The state after initialization: one scheduling pass of the key
/// derives the first table, the second is its byte-reversal, and the
/// index and both accumulators start at zero.
pub open spec fn rc4a_init(key: Seq<u8>) -> Rc4aCore {
    let t1 = ksa_pass(0u8, identity_table(), key, 256).1;
    Rc4aCore { i: 0u8, j1: 0u8, j2: 0u8, t1: t1, t2: reversed(t1) }
}

/// One generate step: the index advances once, then each half-step
/// updates its own accumulator and table and reads its byte out of the
/// other half's table; the two bytes are packed high:low.
pub open spec fn rc4a_step(m: Rc4aCore) -> (Rc4aCore, u16) {
    let i2 = m.i.wrapping_add(1);
    let j1 = m.j1.wrapping_add(m.t1[i2 as int]);
    let t1 = swapped(m.t1, i2 as int, j1 as int);
    let b1 = m.t2[t1[i2 as int].wrapping_add(t1[j1 as int]) as int];
    let j2 = m.j2.wrapping_add(m.t2[i2 as int]);
    let t2 = swapped(m.t2, i2 as int, j2 as int);
    let b2 = t1[t2[i2 as int].wrapping_add(t2[j2 as int]) as int];
    (Rc4aCore { i: i2, j1: j1, j2: j2, t1: t1, t2: t2 }, (b1 as u16) << 8 | (b2 as u16))
}

/// The state after initialization and `n` generate steps.
pub open spec fn rc4a_state(key: Seq<u8>, n: nat) -> Rc4aCore
    decreases n,
{
    if n == 0 {
        rc4a_init(key)
    } else {
        rc4a_step(rc4a_state(key, (n - 1) as nat)).0
    }
}

/// The two packed bytes emitted by generate step `n` (counting from
/// zero).
pub open spec fn rc4a_word(key: Seq<u8>, n: nat) -> u16 {
    rc4a_step(rc4a_state(key, n)).1
}

/// The first `n` keystream words.
pub open spec fn rc4a_keystream(key: Seq<u8>, n: nat) -> Seq<u16> {
    Seq::new(n, |k: int| rc4a_word(key, k as nat))
}

/// Permutation invariant: after initialization and any number of
/// generate steps, both tables hold every byte value once.
pub proof fn lemma_rc4a_state_permutation(key: Seq<u8>, n: nat)
    ensures
        is_permutation(rc4a_state(key, n).t1),
        is_permutation(rc4a_state(key, n).t2),
    decreases n,
{
    if n == 0 {
        lemma_identity_is_permutation();
        lemma_ksa_pass_permutation(0u8, identity_table(), key, 256);
        lemma_reversed_permutation(ksa_pass(0u8, identity_table(), key, 256).1);
    } else {
        lemma_rc4a_state_permutation(key, (n - 1) as nat);
        let m = rc4a_state(key, (n - 1) as nat);
        let i2 = m.i.wrapping_add(1);
        let j1 = m.j1.wrapping_add(m.t1[i2 as int]);
        lemma_swap_preserves_permutation(m.t1, i2 as int, j1 as int);
        let j2 = m.j2.wrapping_add(m.t2[i2 as int]);
        lemma_swap_preserves_permutation(m.t2, i2 as int, j2 as int);
    }
}

/// Determinism: the keystream is a function of the key alone.
pub proof fn lemma_rc4a_deterministic(key1: Seq<u8>, key2: Seq<u8>, n: nat)
    requires
        key1 == key2,
    ensures
        rc4a_keystream(key1, n) == rc4a_keystream(key2, n),
{
}

/// An RC4A keystream generator.
pub struct RC4A {
    /// Step index, shared by both half-steps.
    pub i: u8,
    /// Accumulator of the first half-step.
    pub j1: u8,
    /// Accumulator of the second half-step.
    pub j2: u8,
    /// Table of the first half-step.
    pub state1: Vec<u8>,
    /// Table of the second half-step.
    pub state2: Vec<u8>,
    /// The key the generator was built from.
    pub key: Ghost<Seq<u8>>,
    /// How many generate steps have run.
    pub pos: Ghost<nat>,
}

impl RC4A {
    /// The generator tracks the state that its key and step count
    /// determine; both tables are always permutations.
    pub open spec fn wf(&self) -> bool {
        &&& valid_key(self.key@)
        &&& rc4a_state(self.key@, self.pos@) == (Rc4aCore {
            i: self.i,
            j1: self.j1,
            j2: self.j2,
            t1: self.state1@,
            t2: self.state2@,
        })
        &&& is_permutation(self.state1@)
        &&& is_permutation(self.state2@)
    }

    /// Builds a generator from `key1`: one scheduling pass derives the
    /// first table, the second is its byte-reversal. Rejects an empty
    /// or oversized key.
    pub fn new(key1: &Vec<u8>) -> (r: Result<RC4A, InitError>)
        ensures
            r is Ok <==> valid_key(key1@),
            match r {
                Ok(c) => c.wf() && c.key@ == key1@ && c.pos@ == 0,
                Err(InitError::EmptyKey) => key1@.len() == 0,
                Err(InitError::KeyTooLong) => key1@.len() > 256,
                Err(InitError::IvLengthMismatch) => false,
            },
    {
        if key1.len() == 0 {
            return Err(InitError::EmptyKey);
        }
        if key1.len() > 256 {
            return Err(InitError::KeyTooLong);
        }
        let mut table1 = identity_vec();
        let _scheduled_j = run_ksa_pass(0, &mut table1, key1);
        let mut table2: Vec<u8> = Vec::new();
        let mut k: usize = 0;
        while k < 256
            invariant
                k <= 256,
                table1@.len() == 256,
                table2@.len() == k,
                forall|m: int| 0 <= m < k ==> table2@[m] == table1@[255 - m],
            decreases 256 - k,
        {
            let b = table1[255 - k];
            table2.push(b);
            k = k + 1;
        }
        proof {
            assert(table2@ =~= reversed(table1@));
            lemma_rc4a_state_permutation(key1@, 0);
        }
        Ok(
            RC4A {
                i: 0,
                j1: 0,
                j2: 0,
                state1: table1,
                state2: table2,
                key: Ghost(key1@),
                pos: Ghost(0nat),
            },
        )
    }

    /// Emits the next two keystream bytes, packed high:low.
    pub fn update(&mut self) -> (out: u16)
        requires
            old(self).wf(),
        ensures
            final(self).wf(),
            final(self).key@ == old(self).key@,
            final(self).pos@ == old(self).pos@ + 1,
            out == rc4a_word(old(self).key@, old(self).pos@),
    {
        let ghost p0: nat = self.pos@;
        self.i = self.i.wrapping_add(1);

        self.j1 = self.j1.wrapping_add(self.state1[self.i as usize]);
        swap_entries(&mut self.state1, self.i as usize, self.j1 as usize);
        let res1 = self.state2[self.state1[self.i as usize].wrapping_add(
            self.state1[self.j1 as usize],
        ) as usize] as u16;

        self.j2 = self.j2.wrapping_add(self.state2[self.i as usize]);
        swap_entries(&mut self.state2, self.i as usize, self.j2 as usize);
        let res2 = self.state1[self.state2[self.i as usize].wrapping_add(
            self.state2[self.j2 as usize],
        ) as usize] as u16;

        self.pos = Ghost((p0 + 1) as nat);
        proof {
            let stepped = rc4a_step(rc4a_state(self.key@, p0));
            assert(stepped.0 == (Rc4aCore {
                i: self.i,
                j1: self.j1,
                j2: self.j2,
                t1: self.state1@,
                t2: self.state2@,
            }));
            assert(rc4a_state(self.key@, self.pos@) == stepped.0);
            lemma_rc4a_state_permutation(self.key@, self.pos@);
        }
        res1 << 8 | res2
    }
}

} // verus!
