//! RC4+: an RC4 variant with a three-layer key/IV scrambling schedule
//! and a non-linear output transform.

use vstd::prelude::*;

use crate::errors::InitError;
use crate::ksa::{ksa_pass, ksa_step, lemma_ksa_pass_permutation, run_ksa_pass, valid_key};
use crate::table::{
    identity_table, identity_vec, is_permutation, lemma_identity_is_permutation,
    lemma_swap_preserves_permutation, swap_entries, swapped,
};

verus! {

/// One step of the second scrambling layer at position `i`: the
/// accumulator absorbs `table[i]` and is then masked by the XOR of the
/// next key and IV bytes, before the usual swap.
pub open spec fn layer2_step(j: u8, table: Seq<u8>, key: Seq<u8>, iv: Seq<u8>, i: int) -> (
    u8,
    Seq<u8>,
) {
    let j2 = j.wrapping_add(table[i]) ^ key[i % (key.len() as int)].wrapping_add(
        iv[i % (iv.len() as int)],
    );
    (j2, swapped(table, i, j2 as int))
}

/// The first `n` steps of the second layer, which walks positions
/// backward from 127 down to `128 - n`.
pub open spec fn layer2(j: u8, table: Seq<u8>, key: Seq<u8>, iv: Seq<u8>, n: int) -> (u8, Seq<u8>)
    decreases n,
{
    if n <= 0 {
        (j, table)
    } else {
        let prev = layer2(j, table, key, iv, n - 1);
        layer2_step(prev.0, prev.1, key, iv, 128 - n)
    }
}

/// The position the third layer's zigzag visits at step `y`: the low
/// half forward on even steps, the high half backward on odd ones.
pub open spec fn zigzag_index(y: int) -> int {
    if y % 2 == 0 {
        y / 2
    } else {
        256 - (y + 1) / 2
    }
}

/// The first `n` steps of the third layer: the first layer's update
/// formula applied along the zigzag.
pub open spec fn layer3(j: u8, table: Seq<u8>, key: Seq<u8>, n: int) -> (u8, Seq<u8>)
    decreases n,
{
    if n <= 0 {
        (j, table)
    } else {
        let prev = layer3(j, table, key, n - 1);
        ksa_step(prev.0, prev.1, key, zigzag_index(n - 1))
    }
}

/// The three scrambling layers applied in order over the identity
/// table, the accumulator carrying from each layer into the next;
/// paired with the accumulator the layers end with.
pub open spec fn rc4p_key_schedule(key: Seq<u8>, iv: Seq<u8>) -> (u8, Seq<u8>) {
    let l1 = ksa_pass(0u8, identity_table(), key, 256);
    let l2 = layer2(l1.0, l1.1, key, iv, 128);
    layer3(l2.0, l2.1, key, 256)
}

/// One generate step from `(i, j, table)`: indices advance as in RC4;
/// the output mixes three intermediate lookups through shifted index
/// combinations and a fixed XOR mask.
pub open spec fn rc4p_step(st: (u8, u8, Seq<u8>)) -> ((u8, u8, Seq<u8>), u8) {
    let i2 = st.0.wrapping_add(1);
    let j2 = st.1.wrapping_add(st.2[i2 as int]);
    let t = swapped(st.2, i2 as int, j2 as int);
    let t1 = t[i2 as int].wrapping_add(t[j2 as int]);
    let t2 = t[(i2 << 5 ^ j2 >> 3) as int].wrapping_add(t[(j2 << 5 ^ i2 >> 3) as int]) ^ 0xaa;
    let t3 = j2.wrapping_add(t[j2 as int]);
    ((i2, j2, t), t[t1 as int].wrapping_add(t2) ^ t3)
}

/// The state after the key schedule (indices reset to zero) and `n`
/// generate steps.
pub open spec fn rc4p_state(key: Seq<u8>, iv: Seq<u8>, n: nat) -> (u8, u8, Seq<u8>)
    decreases n,
{
    if n == 0 {
        (0u8, 0u8, rc4p_key_schedule(key, iv).1)
    } else {
        rc4p_step(rc4p_state(key, iv, (n - 1) as nat)).0
    }
}

/// The byte emitted by generate step `n` (counting from zero).
pub open spec fn rc4p_byte(key: Seq<u8>, iv: Seq<u8>, n: nat) -> u8 {
    rc4p_step(rc4p_state(key, iv, n)).1
}

/// The first `n` keystream bytes.
pub open spec fn rc4p_keystream(key: Seq<u8>, iv: Seq<u8>, n: nat) -> Seq<u8> {
    Seq::new(n, |k: int| rc4p_byte(key, iv, k as nat))
}

/// The second layer over a permutation leaves a permutation.
proof fn lemma_layer2_permutation(j: u8, table: Seq<u8>, key: Seq<u8>, iv: Seq<u8>, n: int)
    requires
        is_permutation(table),
        0 <= n <= 128,
    ensures
        is_permutation(layer2(j, table, key, iv, n).1),
    decreases n,
{
    if n > 0 {
        lemma_layer2_permutation(j, table, key, iv, n - 1);
        let prev = layer2(j, table, key, iv, n - 1);
        lemma_swap_preserves_permutation(
            prev.1,
            128 - n,
            layer2_step(prev.0, prev.1, key, iv, 128 - n).0 as int,
        );
    }
}

/// The zigzag stays inside the table.
proof fn lemma_zigzag_index_bounds(y: int)
    requires
        0 <= y < 256,
    ensures
        0 <= zigzag_index(y) < 256,
{
}

/// The third layer over a permutation leaves a permutation.
proof fn lemma_layer3_permutation(j: u8, table: Seq<u8>, key: Seq<u8>, n: int)
    requires
        is_permutation(table),
        0 <= n <= 256,
    ensures
        is_permutation(layer3(j, table, key, n).1),
    decreases n,
{
    if n > 0 {
        lemma_layer3_permutation(j, table, key, n - 1);
        lemma_zigzag_index_bounds(n - 1);
        let prev = layer3(j, table, key, n - 1);
        lemma_swap_preserves_permutation(
            prev.1,
            zigzag_index(n - 1),
            ksa_step(prev.0, prev.1, key, zigzag_index(n - 1)).0 as int,
        );
    }
}

/// Permutation invariant: after the three-layer schedule and any
/// number of generate steps, the table still holds every byte value
/// once.
pub proof fn lemma_rc4p_state_permutation(key: Seq<u8>, iv: Seq<u8>, n: nat)
    ensures
        is_permutation(rc4p_state(key, iv, n).2),
    decreases n,
{
    if n == 0 {
        lemma_identity_is_permutation();
        let l1 = ksa_pass(0u8, identity_table(), key, 256);
        lemma_ksa_pass_permutation(0u8, identity_table(), key, 256);
        let l2 = layer2(l1.0, l1.1, key, iv, 128);
        lemma_layer2_permutation(l1.0, l1.1, key, iv, 128);
        lemma_layer3_permutation(l2.0, l2.1, key, 256);
    } else {
        lemma_rc4p_state_permutation(key, iv, (n - 1) as nat);
        let st = rc4p_state(key, iv, (n - 1) as nat);
        let i2 = st.0.wrapping_add(1);
        let j2 = st.1.wrapping_add(st.2[i2 as int]);
        lemma_swap_preserves_permutation(st.2, i2 as int, j2 as int);
    }
}

/// Determinism: the keystream is a function of the key and IV alone.
pub proof fn lemma_rc4p_deterministic(
    key1: Seq<u8>,
    iv1: Seq<u8>,
    key2: Seq<u8>,
    iv2: Seq<u8>,
    n: nat,
)
    requires
        key1 == key2,
        iv1 == iv2,
    ensures
        rc4p_keystream(key1, iv1, n) == rc4p_keystream(key2, iv2, n),
{
}

/// An RC4+ keystream generator.
pub struct RC4Plus {
    /// Step index.
    pub i: u8,
    /// Running accumulator.
    pub j: u8,
    /// The 256-entry permutation table.
    pub state: Vec<u8>,
    /// The key the generator was built from.
    pub key: Ghost<Seq<u8>>,
    /// The IV the generator was built from.
    pub iv: Ghost<Seq<u8>>,
    /// How many generate steps have run.
    pub pos: Ghost<nat>,
}

impl RC4Plus {
    /// The generator tracks the state that its key, IV and step count
    /// determine; its table is always a permutation.
    pub open spec fn wf(&self) -> bool {
        &&& valid_key(self.key@)
        &&& self.iv@.len() == self.key@.len()
        &&& (self.i, self.j, self.state@) == rc4p_state(self.key@, self.iv@, self.pos@)
        &&& is_permutation(self.state@)
    }

    /// Builds a generator from `key` and `iv`: the three scrambling
    /// layers, indices reset to zero. Rejects an empty or oversized key
    /// and an IV whose length differs from the key's.
    pub fn new(key: &Vec<u8>, iv: &Vec<u8>) -> (r: Result<RC4Plus, InitError>)
        ensures
            r is Ok <==> valid_key(key@) && iv@.len() == key@.len(),
            match r {
                Ok(c) => c.wf() && c.key@ == key@ && c.iv@ == iv@ && c.pos@ == 0,
                Err(InitError::EmptyKey) => key@.len() == 0,
                Err(InitError::KeyTooLong) => key@.len() > 256,
                Err(InitError::IvLengthMismatch) => valid_key(key@) && iv@.len() != key@.len(),
            },
    {
        if key.len() == 0 {
            return Err(InitError::EmptyKey);
        }
        if key.len() > 256 {
            return Err(InitError::KeyTooLong);
        }
        if iv.len() != key.len() {
            return Err(InitError::IvLengthMismatch);
        }
        let mut table = identity_vec();

        // Layer 1: the basic scrambling pass.
        let mut j = run_ksa_pass(0, &mut table, key);
        let ghost l1: (u8, Seq<u8>) = ksa_pass(0u8, identity_table(), key@, 256);

        // Layer 2: backward scrambling with the IV folded in.
        let mut i: usize = 128;
        while i > 0
            invariant
                i <= 128,
                valid_key(key@),
                iv@.len() == key@.len(),
                table@.len() == 256,
                (j, table@) == layer2(l1.0, l1.1, key@, iv@, 128 - i),
            decreases i,
        {
            i = i - 1;
            let mixed = key[i % key.len()].wrapping_add(iv[i % iv.len()]);
            j = j.wrapping_add(table[i]) ^ mixed;
            swap_entries(&mut table, i, j as usize);
        }
        let ghost l2: (u8, Seq<u8>) = layer2(l1.0, l1.1, key@, iv@, 128);

        // Layer 3: zigzag scrambling.
        let mut y: usize = 0;
        while y < 256
            invariant
                y <= 256,
                valid_key(key@),
                table@.len() == 256,
                (j, table@) == layer3(l2.0, l2.1, key@, y as int),
            decreases 256 - y,
        {
            let pos = if y % 2 == 0 {
                y / 2
            } else {
                256 - (y + 1) / 2
            };
            assert(pos == zigzag_index(y as int));
            j = j.wrapping_add(table[pos].wrapping_add(key[pos % key.len()]));
            swap_entries(&mut table, pos, j as usize);
            y = y + 1;
        }
        proof {
            lemma_rc4p_state_permutation(key@, iv@, 0);
        }
        Ok(
            RC4Plus {
                i: 0,
                j: 0,
                state: table,
                key: Ghost(key@),
                iv: Ghost(iv@),
                pos: Ghost(0nat),
            },
        )
    }

    /// Emits the next keystream byte through the non-linear output
    /// transform.
    pub fn update(&mut self) -> (out: u8)
        requires
            old(self).wf(),
        ensures
            final(self).wf(),
            final(self).key@ == old(self).key@,
            final(self).iv@ == old(self).iv@,
            final(self).pos@ == old(self).pos@ + 1,
            out == rc4p_byte(old(self).key@, old(self).iv@, old(self).pos@),
    {
        let ghost p0: nat = self.pos@;
        self.i = self.i.wrapping_add(1);
        self.j = self.j.wrapping_add(self.state[self.i as usize]);
        swap_entries(&mut self.state, self.i as usize, self.j as usize);

        let t1 = self.state[self.i as usize].wrapping_add(self.state[self.j as usize]);
        let t2 = self.state[(self.i << 5 ^ self.j >> 3) as usize].wrapping_add(
            self.state[(self.j << 5 ^ self.i >> 3) as usize],
        ) ^ 0xaa;
        let t3 = self.j.wrapping_add(self.state[self.j as usize]);
        let out = self.state[t1 as usize].wrapping_add(t2) ^ t3;

        self.pos = Ghost((p0 + 1) as nat);
        proof {
            let stepped = rc4p_step(rc4p_state(self.key@, self.iv@, p0));
            assert((self.i, self.j, self.state@) == stepped.0);
            assert(out == stepped.1);
            assert(rc4p_state(self.key@, self.iv@, self.pos@) == stepped.0);
            lemma_rc4p_state_permutation(self.key@, self.iv@, self.pos@);
        }
        out
    }
}

} // verus!
