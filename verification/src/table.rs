//! The 256-entry byte table shared by every generator, and the swap
//! operation out of which all table updates are composed.

use vstd::prelude::*;

verus! {

/// A table is a permutation when it is 256 long and holds every byte
/// value; with 256 slots each value then appears exactly once.
pub open spec fn is_permutation(s: Seq<u8>) -> bool {
    s.len() == 256 && forall|b: u8| #[trigger] s.contains(b)
}

/// The identity table: entry `k` holds the byte `k`.
pub open spec fn identity_table() -> Seq<u8> {
    Seq::new(256, |k: int| k as u8)
}

/// The table with the entries at `x` and `y` exchanged.
pub open spec fn swapped(s: Seq<u8>, x: int, y: int) -> Seq<u8> {
    s.update(x, s[y]).update(y, s[x])
}

/// The identity table is a permutation.
pub proof fn lemma_identity_is_permutation()
    ensures
        is_permutation(identity_table()),
{
    assert forall|b: u8| #[trigger] identity_table().contains(b) by {
        assert(identity_table()[b as int] == b);
    }
}

/// Exchanging two entries of a permutation leaves a permutation.
pub proof fn lemma_swap_preserves_permutation(s: Seq<u8>, x: int, y: int)
    requires
        is_permutation(s),
        0 <= x < 256,
        0 <= y < 256,
    ensures
        is_permutation(swapped(s, x, y)),
{
    let t = swapped(s, x, y);
    assert forall|b: u8| #[trigger] t.contains(b) by {
        assert(s.contains(b));
        let k = choose|k: int| 0 <= k < s.len() && s[k] == b;
        if k == x {
            assert(t[y] == b);
        } else if k == y {
            assert(t[x] == b);
        } else {
            assert(t[k] == b);
        }
    }
}

/// Exchanges the entries at `x` and `y`.
pub fn swap_entries(t: &mut Vec<u8>, x: usize, y: usize)
    requires
        x < old(t).len(),
        y < old(t).len(),
    ensures
        final(t)@ == swapped(old(t)@, x as int, y as int),
        final(t)@.len() == old(t)@.len(),
{
    let a = t[x];
    let b = t[y];
    t.set(x, b);
    t.set(y, a);
}

/// Builds the identity table.
pub fn identity_vec() -> (t: Vec<u8>)
    ensures
        t@ == identity_table(),
{
    let mut t: Vec<u8> = Vec::new();
    let mut k: usize = 0;
    while k < 256
        invariant
            k <= 256,
            t@.len() == k,
            forall|m: int| 0 <= m < k ==> t@[m] == m as u8,
        decreases 256 - k,
    {
        t.push(k as u8);
        k = k + 1;
    }
    proof {
        assert(t@ =~= identity_table());
    }
    t
}

} // verus!
