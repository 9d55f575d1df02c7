use keystream::errors::InitError;
use keystream::rc4a::RC4A;

fn dual_table_is_permutation(t: &[u8]) -> bool {
    let mut seen = [false; 256];
    if t.len() != 256 {
        return false;
    }
    for &b in t {
        if seen[b as usize] {
            return false;
        }
        seen[b as usize] = true;
    }
    true
}

#[test]
fn rc4a_golden_vector() {
    let key = vec![0x01, 0x23, 0x45, 0x67, 0x89, 0xab, 0xcd, 0xef];
    let mut c = RC4A::new(&key).unwrap();
    let expected: [u16; 8] = [0xdf6a, 0x97a2, 0xad20, 0x0f7e, 0xec4a, 0x73f9, 0x3095, 0xcfd2];
    for &e in expected.iter() {
        assert_eq!(c.update(), e);
    }
}

#[test]
fn rc4a_determinism() {
    let key = vec![0x01, 0x23, 0x45, 0x67, 0x89, 0xab, 0xcd, 0xef];
    let mut a = RC4A::new(&key).unwrap();
    let mut b = RC4A::new(&key).unwrap();
    for _ in 0..64 {
        assert_eq!(a.update(), b.update());
    }
}

#[test]
fn rc4a_second_table_is_reversed_first() {
    let key = vec![0x01, 0x23, 0x45, 0x67, 0x89, 0xab, 0xcd, 0xef];
    let c = RC4A::new(&key).unwrap();
    for k in 0..256 {
        assert_eq!(c.state2[k], c.state1[255 - k]);
    }
}

#[test]
fn rc4a_permutation_invariant() {
    let key = vec![0x01, 0x23, 0x45, 0x67, 0x89, 0xab, 0xcd, 0xef];
    let mut c = RC4A::new(&key).unwrap();
    assert!(dual_table_is_permutation(&c.state1));
    assert!(dual_table_is_permutation(&c.state2));
    for _ in 0..32 {
        c.update();
        assert!(dual_table_is_permutation(&c.state1));
        assert!(dual_table_is_permutation(&c.state2));
    }
}

#[test]
fn rc4a_key_length_boundary() {
    let empty: Vec<u8> = Vec::new();
    assert!(matches!(RC4A::new(&empty), Err(InitError::EmptyKey)));
    let full = vec![0xa5u8; 256];
    assert!(RC4A::new(&full).is_ok());
    let over = vec![0xa5u8; 257];
    assert!(matches!(RC4A::new(&over), Err(InitError::KeyTooLong)));
}
