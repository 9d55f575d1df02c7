use keystream::spritz::Spritz;

fn sponge_table_is_permutation(t: &[u8]) -> bool {
    let mut seen = [false; 256];
    if t.len() != 256 {
        return false;
    }
    for &b in t {
        if seen[b as usize] {
            return false;
        }
        seen[b as usize] = true;
    }
    true
}

fn keyed_sponge(key: &[u8]) -> Spritz {
    let mut s = Spritz::new();
    let key = key.to_vec();
    s.absorb(&key);
    s.absorb_stop();
    s
}

#[test]
fn spritz_squeeze_sixteen_scenario() {
    let mut s = keyed_sponge(&[0x01, 0x23, 0x45, 0x67, 0x89, 0xab, 0xcd, 0xef]);
    let out = s.squeeze(16);
    let expected = vec![
        0x41, 0xc9, 0x76, 0x81, 0x07, 0xc3, 0x92, 0x6d, 0xd9, 0x8c, 0x23, 0xe6, 0x82, 0xf1, 0x11,
        0x3a,
    ];
    assert_eq!(out, expected);
}

#[test]
fn spritz_round_trip_same_key() {
    let key = [0x01, 0x23, 0x45, 0x67, 0x89, 0xab, 0xcd, 0xef];
    let mut a = keyed_sponge(&key);
    let mut b = keyed_sponge(&key);
    assert_eq!(a.squeeze(32), b.squeeze(32));
}

#[test]
fn spritz_chunked_squeeze_matches_single() {
    let key = [0x01, 0x23, 0x45, 0x67, 0x89, 0xab, 0xcd, 0xef];
    let mut chunked = keyed_sponge(&key);
    let mut first = chunked.squeeze(7);
    let second = chunked.squeeze(9);
    first.extend(second);
    let mut single = keyed_sponge(&key);
    assert_eq!(first, single.squeeze(16));
}

#[test]
fn spritz_short_key_regression() {
    let mut s = keyed_sponge(&[0x41, 0x42, 0x43]);
    let out = s.squeeze(8);
    let expected = vec![0x6c, 0x85, 0xa7, 0x18, 0x7b, 0xa1, 0x00, 0x1f];
    assert_eq!(out, expected);
}

#[test]
fn spritz_drip_matches_single_byte_squeeze() {
    let key = [0x01, 0x23, 0x45, 0x67, 0x89, 0xab, 0xcd, 0xef];
    let mut by_drip = keyed_sponge(&key);
    let mut by_squeeze = keyed_sponge(&key);
    for _ in 0..16 {
        assert_eq!(vec![by_drip.drip()], by_squeeze.squeeze(1));
    }
}

#[test]
fn spritz_empty_squeeze_is_empty() {
    let mut s = keyed_sponge(&[0x01, 0x23]);
    assert_eq!(s.squeeze(0), Vec::<u8>::new());
}

#[test]
fn spritz_absorb_byte_is_two_nibbles() {
    // A byte is absorbed as its low nibble, then its high nibble left
    // in place under the 0xf0 mask.
    let mut a = Spritz::new();
    a.absorb_byte(&0xd7);
    let mut b = Spritz::new();
    b.absorb_nibble(0x07);
    b.absorb_nibble(0xd0);
    assert_eq!(a.state, b.state);
    assert_eq!(a.a, b.a);
}

#[test]
fn spritz_shuffle_resets_counter() {
    let mut s = Spritz::new();
    s.absorb_nibble(0x05);
    assert!(s.a > 0);
    s.shuffle();
    assert_eq!(s.a, 0);
}

#[test]
fn spritz_permutation_invariant() {
    let mut s = Spritz::new();
    assert!(sponge_table_is_permutation(&s.state));
    let key = vec![0x01, 0x23, 0x45, 0x67, 0x89, 0xab, 0xcd, 0xef];
    s.absorb(&key);
    assert!(sponge_table_is_permutation(&s.state));
    s.absorb_stop();
    assert!(sponge_table_is_permutation(&s.state));
    for _ in 0..32 {
        s.squeeze(1);
        assert!(sponge_table_is_permutation(&s.state));
    }
}

#[test]
fn spritz_long_absorb_crosses_shuffle() {
    // 128 nibble slots fill after 64 bytes; a longer input forces
    // shuffles during absorption.
    let data = vec![0x5au8; 100];
    let mut s = Spritz::new();
    s.absorb(&data);
    assert!(sponge_table_is_permutation(&s.state));
    assert!(s.a <= 128);
    s.absorb_stop();
    let mut t = Spritz::new();
    t.absorb(&data);
    t.absorb_stop();
    assert_eq!(s.squeeze(16), t.squeeze(16));
}
