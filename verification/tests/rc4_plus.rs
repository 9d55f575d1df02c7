use keystream::errors::InitError;
use keystream::rc4_plus::RC4Plus;

fn plus_table_is_permutation(t: &[u8]) -> bool {
    let mut seen = [false; 256];
    if t.len() != 256 {
        return false;
    }
    for &b in t {
        if seen[b as usize] {
            return false;
        }
        seen[b as usize] = true;
    }
    true
}

#[test]
fn rc4_plus_golden_vector() {
    let key = vec![0x01, 0x23, 0x45, 0x67, 0x89, 0xab, 0xcd, 0xef];
    let iv = vec![0x10, 0x32, 0x54, 0x76, 0x98, 0xba, 0xdc, 0xfe];
    let mut c = RC4Plus::new(&key, &iv).unwrap();
    let expected = [
        0xfa, 0x2c, 0xca, 0x00, 0x79, 0xf2, 0x2f, 0xcf, 0x25, 0x54, 0xa2, 0xb7, 0x8d, 0xb1, 0x3b,
        0xc0,
    ];
    for &e in expected.iter() {
        assert_eq!(c.update(), e);
    }
}

#[test]
fn rc4_plus_determinism() {
    let key = vec![0x01, 0x23, 0x45, 0x67, 0x89, 0xab, 0xcd, 0xef];
    let iv = vec![0x10, 0x32, 0x54, 0x76, 0x98, 0xba, 0xdc, 0xfe];
    let mut a = RC4Plus::new(&key, &iv).unwrap();
    let mut b = RC4Plus::new(&key, &iv).unwrap();
    for _ in 0..64 {
        assert_eq!(a.update(), b.update());
    }
}

#[test]
fn rc4_plus_permutation_invariant() {
    let key = vec![0x01, 0x23, 0x45, 0x67, 0x89, 0xab, 0xcd, 0xef];
    let iv = vec![0x10, 0x32, 0x54, 0x76, 0x98, 0xba, 0xdc, 0xfe];
    let mut c = RC4Plus::new(&key, &iv).unwrap();
    assert!(plus_table_is_permutation(&c.state));
    for _ in 0..32 {
        c.update();
        assert!(plus_table_is_permutation(&c.state));
    }
}

#[test]
fn rc4_plus_key_length_boundary() {
    let empty: Vec<u8> = Vec::new();
    assert!(matches!(RC4Plus::new(&empty, &empty), Err(InitError::EmptyKey)));
    let full = vec![0xa5u8; 256];
    assert!(RC4Plus::new(&full, &full).is_ok());
    let over = vec![0xa5u8; 257];
    assert!(matches!(RC4Plus::new(&over, &over), Err(InitError::KeyTooLong)));
}

#[test]
fn rc4_plus_iv_length_mismatch() {
    let key = vec![0x01, 0x23, 0x45, 0x67];
    let iv = vec![0x10, 0x32, 0x54];
    assert!(matches!(RC4Plus::new(&key, &iv), Err(InitError::IvLengthMismatch)));
    let iv_long = vec![0x10, 0x32, 0x54, 0x76, 0x98];
    assert!(matches!(RC4Plus::new(&key, &iv_long), Err(InitError::IvLengthMismatch)));
}
