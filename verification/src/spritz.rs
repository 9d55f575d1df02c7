//! Spritz: a sponge-like construction with absorb (key ingestion) and
//! squeeze (output extraction) phases, internal whip/crush/shuffle
//! mixing, and nibble-level absorption.

use vstd::prelude::*;

use crate::table::{
    identity_table, identity_vec, is_permutation, lemma_identity_is_permutation,
    lemma_swap_preserves_permutation, swap_entries, swapped,
};

verus! {

/// The sponge's abstract state.
pub struct SpritzCore {
    /// Step index.
    pub i: u8,
    /// First accumulator.
    pub j: u8,
    /// Second accumulator.
    pub k: u8,
    /// Absorption counter; at most 128 between shuffles.
    pub a: u8,
    /// Output-pacing counter.
    pub w: u8,
    /// The last emitted byte.
    pub z: u8,
    /// The 256-entry permutation table.
    pub table: Seq<u8>,
}

/// The fresh sponge: identity table, every scalar zero.
pub open spec fn spritz_init() -> SpritzCore {
    SpritzCore { i: 0u8, j: 0u8, k: 0u8, a: 0u8, w: 0u8, z: 0u8, table: identity_table() }
}

/// One state transition: `i` advances by `w`, `j` and `k` absorb table
/// lookups, and the entries at `i` and `j` are swapped.
pub open spec fn spritz_update(m: SpritzCore) -> SpritzCore {
    let i2 = m.i.wrapping_add(m.w);
    let j2 = m.k.wrapping_add(m.table[m.j.wrapping_add(m.table[i2 as int]) as int]);
    let k2 = m.k.wrapping_add(m.k).wrapping_add(m.table[j2 as int]);
    SpritzCore {
        i: i2,
        j: j2,
        k: k2,
        a: m.a,
        w: m.w,
        z: m.z,
        table: swapped(m.table, i2 as int, j2 as int),
    }
}

/// `n` consecutive state transitions.
pub open spec fn spritz_updates(m: SpritzCore, n: int) -> SpritzCore
    decreases n,
{
    if n <= 0 {
        m
    } else {
        spritz_update(spritz_updates(m, n - 1))
    }
}

/// Whip: 512 state transitions, then the pacing counter grows by 2.
pub open spec fn spritz_whip(m: SpritzCore) -> SpritzCore {
    let m2 = spritz_updates(m, 512);
    SpritzCore {
        i: m2.i,
        j: m2.j,
        k: m2.k,
        a: m2.a,
        w: m2.w.wrapping_add(2),
        z: m2.z,
        table: m2.table,
    }
}

/// One crush comparison: the pair at `v` and `255 - v` is put in
/// ascending order.
pub open spec fn crush_step(t: Seq<u8>, v: int) -> Seq<u8> {
    if t[v] > t[255 - v] {
        swapped(t, v, 255 - v)
    } else {
        t
    }
}

/// The first `n` crush comparisons, at positions `0 .. n`.
pub open spec fn crush_upto(t: Seq<u8>, n: int) -> Seq<u8>
    decreases n,
{
    if n <= 0 {
        t
    } else {
        crush_step(crush_upto(t, n - 1), n - 1)
    }
}

/// Crush: all 128 paired comparisons.
pub open spec fn spritz_crush(m: SpritzCore) -> SpritzCore {
    SpritzCore {
        i: m.i,
        j: m.j,
        k: m.k,
        a: m.a,
        w: m.w,
        z: m.z,
        table: crush_upto(m.table, 128),
    }
}

/// Shuffle: whip, crush, whip, crush, whip, in that order, then the
/// absorption counter resets.
pub open spec fn spritz_shuffle(m: SpritzCore) -> SpritzCore {
    let m2 = spritz_whip(spritz_crush(spritz_whip(spritz_crush(spritz_whip(m)))));
    SpritzCore { i: m2.i, j: m2.j, k: m2.k, a: 0u8, w: m2.w, z: m2.z, table: m2.table }
}

/// Absorbing one nibble: shuffle if the counter has reached 128, swap
/// the entry at the counter with the one at `128 + nibble` (taken mod
/// 256), and advance the counter.
pub open spec fn spritz_absorb_nibble(m: SpritzCore, nibble: u8) -> SpritzCore {
    let m1 = if m.a >= 128 {
        spritz_shuffle(m)
    } else {
        m
    };
    SpritzCore {
        i: m1.i,
        j: m1.j,
        k: m1.k,
        a: m1.a.wrapping_add(1),
        w: m1.w,
        z: m1.z,
        table: swapped(m1.table, m1.a as int, (128u8).wrapping_add(nibble) as int),
    }
}

/// Absorbing one byte: its low nibble, then its high nibble left in
/// place under the `0xf0` mask.
pub open spec fn spritz_absorb_byte(m: SpritzCore, byte: u8) -> SpritzCore {
    spritz_absorb_nibble(spritz_absorb_nibble(m, byte & 0x0f), byte & 0xf0)
}

/// Absorbing the first `n` bytes of `data`, in order.
pub open spec fn spritz_absorb_upto(m: SpritzCore, data: Seq<u8>, n: int) -> SpritzCore
    decreases n,
{
    if n <= 0 {
        m
    } else {
        spritz_absorb_byte(spritz_absorb_upto(m, data, n - 1), data[n - 1])
    }
}

/// Absorbing all of `data`.
pub open spec fn spritz_absorb(m: SpritzCore, data: Seq<u8>) -> SpritzCore {
    spritz_absorb_upto(m, data, data.len() as int)
}

/// Absorbing a message boundary: shuffle if the counter has reached
/// 128, then advance the counter without swapping.
pub open spec fn spritz_absorb_stop(m: SpritzCore) -> SpritzCore {
    let m1 = if m.a >= 128 {
        spritz_shuffle(m)
    } else {
        m
    };
    SpritzCore {
        i: m1.i,
        j: m1.j,
        k: m1.k,
        a: m1.a.wrapping_add(1),
        w: m1.w,
        z: m1.z,
        table: m1.table,
    }
}

/// The output lookup: `z` is replaced by a three-level nested table
/// read and emitted.
pub open spec fn spritz_output(m: SpritzCore) -> (SpritzCore, u8) {
    let z2 = m.table[m.j.wrapping_add(
        m.table[m.i.wrapping_add(m.table[m.z.wrapping_add(m.k) as int]) as int],
    ) as int];
    (SpritzCore { i: m.i, j: m.j, k: m.k, a: m.a, w: m.w, z: z2, table: m.table }, z2)
}

/// One squeezed byte: shuffle if absorption is pending, one state
/// transition, then the output lookup.
pub open spec fn spritz_drip(m: SpritzCore) -> (SpritzCore, u8) {
    let m1 = if m.a > 0 {
        spritz_shuffle(m)
    } else {
        m
    };
    spritz_output(spritz_update(m1))
}

/// `n` dripped bytes, in order.
pub open spec fn spritz_drips(m: SpritzCore, n: int) -> (SpritzCore, Seq<u8>)
    decreases n,
{
    if n <= 0 {
        (m, Seq::empty())
    } else {
        let prev = spritz_drips(m, n - 1);
        let d = spritz_drip(prev.0);
        (d.0, prev.1.push(d.1))
    }
}

/// Squeezing `r` bytes: shuffle if absorption is pending, then drip
/// `r` times.
pub open spec fn spritz_squeeze(m: SpritzCore, r: int) -> (SpritzCore, Seq<u8>) {
    let m1 = if m.a > 0 {
        spritz_shuffle(m)
    } else {
        m
    };
    spritz_drips(m1, r)
}

/// The first `r` keystream bytes of the usual usage: absorb the key
/// into a fresh sponge, mark the boundary, squeeze.
pub open spec fn spritz_keystream(key: Seq<u8>, r: int) -> Seq<u8> {
    spritz_squeeze(spritz_absorb_stop(spritz_absorb(spritz_init(), key)), r).1
}

/// Determinism: absorbing equal keys into two fresh sponges and
/// squeezing the same count yields the same bytes.
pub proof fn lemma_spritz_deterministic(key1: Seq<u8>, key2: Seq<u8>, r: int)
    requires
        key1 == key2,
    ensures
        spritz_keystream(key1, r) == spritz_keystream(key2, r),
{
}

/// Dripping never raises the absorption counter from zero.
proof fn lemma_spritz_drips_keeps_counter_zero(m: SpritzCore, n: int)
    requires
        m.a == 0,
    ensures
        spritz_drips(m, n).0.a == 0,
    decreases n,
{
    if n > 0 {
        lemma_spritz_drips_keeps_counter_zero(m, n - 1);
    }
}

/// Dripping `r1 + r2` bytes is dripping `r1`, then `r2` more from the
/// state the first run left.
proof fn lemma_spritz_drips_additive(m: SpritzCore, r1: int, r2: int)
    requires
        0 <= r1,
        0 <= r2,
    ensures
        spritz_drips(m, r1 + r2).0 == spritz_drips(spritz_drips(m, r1).0, r2).0,
        spritz_drips(m, r1 + r2).1 == spritz_drips(m, r1).1 + spritz_drips(
            spritz_drips(m, r1).0,
            r2,
        ).1,
    decreases r2,
{
    let first = spritz_drips(m, r1);
    if r2 == 0 {
        assert(spritz_drips(m, r1 + r2).1 =~= first.1 + spritz_drips(first.0, 0).1);
    } else {
        lemma_spritz_drips_additive(m, r1, r2 - 1);
        let prev = spritz_drips(m, r1 + r2 - 1);
        let prev2 = spritz_drips(first.0, r2 - 1);
        let d = spritz_drip(prev.0);
        assert(spritz_drips(m, r1 + r2).1 =~= first.1 + prev2.1.push(d.1));
    }
}

/// No boundary artifacts from chunking: squeezing `r1` bytes and then
/// `r2` more equals squeezing `r1 + r2` at once from the same state.
pub proof fn lemma_spritz_squeeze_chunked(m: SpritzCore, r1: int, r2: int)
    requires
        0 <= r1,
        0 <= r2,
    ensures
        spritz_squeeze(spritz_squeeze(m, r1).0, r2).0 == spritz_squeeze(m, r1 + r2).0,
        spritz_squeeze(m, r1).1 + spritz_squeeze(spritz_squeeze(m, r1).0, r2).1 == spritz_squeeze(
            m,
            r1 + r2,
        ).1,
{
    let m1 = if m.a > 0 {
        spritz_shuffle(m)
    } else {
        m
    };
    assert(m1.a == 0);
    lemma_spritz_drips_keeps_counter_zero(m1, r1);
    lemma_spritz_drips_additive(m1, r1, r2);
}

/// A Spritz sponge.
pub struct Spritz {
    /// Step index.
    pub i: u8,
    /// First accumulator.
    pub j: u8,
    /// Second accumulator.
    pub k: u8,
    /// Absorption counter.
    pub a: u8,
    /// Output-pacing counter.
    pub w: u8,
    /// The last emitted byte.
    pub z: u8,
    /// The 256-entry permutation table.
    pub state: Vec<u8>,
}

impl View for Spritz {
    type V = SpritzCore;

    open spec fn view(&self) -> SpritzCore {
        SpritzCore {
            i: self.i,
            j: self.j,
            k: self.k,
            a: self.a,
            w: self.w,
            z: self.z,
            table: self.state@,
        }
    }
}

impl Spritz {
    /// The table is a permutation and the absorption counter never
    /// passes 128.
    pub open spec fn wf(&self) -> bool {
        &&& is_permutation(self.state@)
        &&& self.a <= 128
    }

    /// Builds the fresh sponge.
    pub fn new() -> (r: Spritz)
        ensures
            r@ == spritz_init(),
            r.wf(),
    {
        let table = identity_vec();
        proof {
            lemma_identity_is_permutation();
        }
        Spritz { i: 0, j: 0, k: 0, a: 0, w: 0, z: 0, state: table }
    }

    /// Runs one state transition.
    pub fn update(&mut self)
        requires
            old(self).wf(),
        ensures
            final(self)@ == spritz_update(old(self)@),
            final(self).wf(),
    {
        self.i = self.i.wrapping_add(self.w);
        self.j = self.k.wrapping_add(
            self.state[self.j.wrapping_add(self.state[self.i as usize]) as usize],
        );
        self.k = self.k.wrapping_add(self.k).wrapping_add(self.state[self.j as usize]);
        swap_entries(&mut self.state, self.i as usize, self.j as usize);
        proof {
            lemma_swap_preserves_permutation(old(self).state@, self.i as int, self.j as int);
        }
    }

    /// Whips: 512 state transitions, then the pacing counter grows
    /// by 2.
    pub fn whip(&mut self)
        requires
            old(self).wf(),
        ensures
            final(self)@ == spritz_whip(old(self)@),
            final(self).wf(),
    {
        let ghost m0: SpritzCore = self@;
        let mut n: usize = 0;
        while n < 512
            invariant
                n <= 512,
                self@ == spritz_updates(m0, n as int),
                self.wf(),
            decreases 512 - n,
        {
            self.update();
            n = n + 1;
        }
        self.w = self.w.wrapping_add(2);
    }

    /// Crushes: each pair of entries at `v` and `255 - v` is put in
    /// ascending order.
    pub fn crush(&mut self)
        requires
            old(self).wf(),
        ensures
            final(self)@ == spritz_crush(old(self)@),
            final(self).wf(),
    {
        let ghost m0: SpritzCore = self@;
        let mut v: usize = 0;
        while v < 128
            invariant
                v <= 128,
                self.i == m0.i,
                self.j == m0.j,
                self.k == m0.k,
                self.a == m0.a,
                self.w == m0.w,
                self.z == m0.z,
                self.a <= 128,
                self.state@ == crush_upto(m0.table, v as int),
                is_permutation(self.state@),
            decreases 128 - v,
        {
            let ghost before: Seq<u8> = self.state@;
            if self.state[v] > self.state[255 - v] {
                swap_entries(&mut self.state, v, 255 - v);
                proof {
                    lemma_swap_preserves_permutation(before, v as int, 255 - v as int);
                }
            }
            v = v + 1;
        }
    }

    /// Shuffles: whip, crush, whip, crush, whip, then the absorption
    /// counter resets.
    pub fn shuffle(&mut self)
        requires
            old(self).wf(),
        ensures
            final(self)@ == spritz_shuffle(old(self)@),
            final(self).wf(),
            final(self).a == 0,
    {
        self.whip();
        self.crush();
        self.whip();
        self.crush();
        self.whip();
        self.a = 0;
    }

    /// Absorbs one nibble.
    pub fn absorb_nibble(&mut self, nibble: u8)
        requires
            old(self).wf(),
        ensures
            final(self)@ == spritz_absorb_nibble(old(self)@, nibble),
            final(self).wf(),
    {
        if self.a >= 128 {
            self.shuffle();
        }
        let ghost m1: SpritzCore = self@;
        let slot = (128u8).wrapping_add(nibble);
        swap_entries(&mut self.state, self.a as usize, slot as usize);
        proof {
            lemma_swap_preserves_permutation(m1.table, m1.a as int, slot as int);
        }
        self.a = self.a + 1;
    }

    /// Absorbs one byte: its low nibble, then its high nibble left in
    /// place under the `0xf0` mask.
    pub fn absorb_byte(&mut self, byte: &u8)
        requires
            old(self).wf(),
        ensures
            final(self)@ == spritz_absorb_byte(old(self)@, *byte),
            final(self).wf(),
    {
        self.absorb_nibble(*byte & 0x0f);
        self.absorb_nibble(*byte & 0xf0);
    }

    /// Absorbs every byte of `data`, in order.
    pub fn absorb(&mut self, data: &Vec<u8>)
        requires
            old(self).wf(),
        ensures
            final(self)@ == spritz_absorb(old(self)@, data@),
            final(self).wf(),
    {
        let ghost m0: SpritzCore = self@;
        let mut idx: usize = 0;
        while idx < data.len()
            invariant
                idx <= data@.len(),
                self@ == spritz_absorb_upto(m0, data@, idx as int),
                self.wf(),
            decreases data@.len() - idx,
        {
            let byte = data[idx];
            self.absorb_byte(&byte);
            idx = idx + 1;
        }
    }

    /// Absorbs a message boundary: the counter advances without a
    /// swap.
    pub fn absorb_stop(&mut self)
        requires
            old(self).wf(),
        ensures
            final(self)@ == spritz_absorb_stop(old(self)@),
            final(self).wf(),
    {
        if self.a >= 128 {
            self.shuffle();
        }
        self.a = self.a + 1;
    }

    /// Emits and retains the output lookup.
    pub fn output(&mut self) -> (out: u8)
        requires
            old(self).wf(),
        ensures
            final(self)@ == spritz_output(old(self)@).0,
            out == spritz_output(old(self)@).1,
            final(self).wf(),
    {
        self.z = self.state[self.j.wrapping_add(
            self.state[self.i.wrapping_add(self.state[self.z.wrapping_add(self.k) as usize])
                as usize],
        ) as usize];
        self.z
    }

    /// Emits one squeezed byte.
    pub fn drip(&mut self) -> (out: u8)
        requires
            old(self).wf(),
        ensures
            final(self)@ == spritz_drip(old(self)@).0,
            out == spritz_drip(old(self)@).1,
            final(self).wf(),
    {
        if self.a > 0 {
            self.shuffle();
        }
        self.update();
        self.output()
    }

    /// Squeezes the next `r` keystream bytes.
    pub fn squeeze(&mut self, r: u64) -> (out: Vec<u8>)
        requires
            old(self).wf(),
        ensures
            final(self)@ == spritz_squeeze(old(self)@, r as int).0,
            out@ == spritz_squeeze(old(self)@, r as int).1,
            out@.len() == r,
            final(self).wf(),
    {
        if self.a > 0 {
            self.shuffle();
        }
        let ghost m1: SpritzCore = self@;
        let mut p: Vec<u8> = Vec::new();
        let mut n: u64 = 0;
        while n < r
            invariant
                n <= r,
                p@.len() == n,
                self@ == spritz_drips(m1, n as int).0,
                p@ == spritz_drips(m1, n as int).1,
                self.wf(),
            decreases r - n,
        {
            let b = self.drip();
            p.push(b);
            n = n + 1;
        }
        p
    }
}

} // verus!
