use keystream::errors::InitError;
use keystream::vmpc::{Vmpc, VMPC};

fn vmpc_table_is_permutation(t: &[u8]) -> bool {
    let mut seen = [false; 256];
    if t.len() != 256 {
        return false;
    }
    for &b in t {
        if seen[b as usize] {
            return false;
        }
        seen[b as usize] = true;
    }
    true
}

#[test]
fn vmpc_golden_vector() {
    let key = vec![0x01, 0x23, 0x45, 0x67, 0x89, 0xab, 0xcd, 0xef];
    let iv = vec![0x10, 0x32, 0x54, 0x76, 0x98, 0xba, 0xdc, 0xfe];
    let mut c = VMPC::new(&key, &iv).unwrap();
    let expected = [
        0x05, 0x72, 0x2a, 0x1e, 0x20, 0xff, 0x3e, 0xd4, 0xca, 0x5a, 0xce, 0x86, 0xf5, 0xdc, 0xca,
        0xc6,
    ];
    for &e in expected.iter() {
        assert_eq!(c.update(), e);
    }
}

#[test]
fn vmpc_both_names_agree() {
    let key = vec![0x01, 0x23, 0x45, 0x67, 0x89, 0xab, 0xcd, 0xef];
    let iv = vec![0x10, 0x32, 0x54, 0x76, 0x98, 0xba, 0xdc, 0xfe];
    let mut a = VMPC::new(&key, &iv).unwrap();
    let mut b = Vmpc::new(&key, &iv).unwrap();
    for _ in 0..64 {
        assert_eq!(a.update(), b.update());
    }
}

#[test]
fn vmpc_determinism() {
    let key = vec![0x01, 0x23, 0x45, 0x67, 0x89, 0xab, 0xcd, 0xef];
    let iv = vec![0x10, 0x32, 0x54, 0x76, 0x98, 0xba, 0xdc, 0xfe];
    let mut a = VMPC::new(&key, &iv).unwrap();
    let mut b = VMPC::new(&key, &iv).unwrap();
    for _ in 0..64 {
        assert_eq!(a.update(), b.update());
    }
}

#[test]
fn vmpc_permutation_invariant() {
    let key = vec![0x01, 0x23, 0x45, 0x67, 0x89, 0xab, 0xcd, 0xef];
    let iv = vec![0x10, 0x32, 0x54, 0x76, 0x98, 0xba, 0xdc, 0xfe];
    let mut c = VMPC::new(&key, &iv).unwrap();
    assert!(vmpc_table_is_permutation(&c.state));
    for _ in 0..32 {
        c.update();
        assert!(vmpc_table_is_permutation(&c.state));
    }
}

#[test]
fn vmpc_key_length_boundary() {
    let empty: Vec<u8> = Vec::new();
    assert!(matches!(VMPC::new(&empty, &empty), Err(InitError::EmptyKey)));
    let full = vec![0xa5u8; 256];
    assert!(VMPC::new(&full, &full).is_ok());
    let over = vec![0xa5u8; 257];
    assert!(matches!(VMPC::new(&over, &over), Err(InitError::KeyTooLong)));
}

#[test]
fn vmpc_iv_length_mismatch() {
    let key = vec![0x01, 0x23, 0x45, 0x67];
    let iv = vec![0x10, 0x32, 0x54];
    assert!(matches!(VMPC::new(&key, &iv), Err(InitError::IvLengthMismatch)));
    assert!(matches!(Vmpc::new(&key, &iv), Err(InitError::IvLengthMismatch)));
}
