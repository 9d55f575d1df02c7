use keystream::errors::InitError;
use keystream::rc4::RC4;

fn table_is_permutation(t: &[u8]) -> bool {
    let mut seen = [false; 256];
    if t.len() != 256 {
        return false;
    }
    for &b in t {
        if seen[b as usize] {
            return false;
        }
        seen[b as usize] = true;
    }
    true
}

#[test]
fn rc4_known_answer_key_vector() {
    // Published RC4 test vector: key "Key".
    let key = vec![0x4b, 0x65, 0x79];
    let mut c = RC4::new(&key).unwrap();
    let expected = [0xeb, 0x9f, 0x77, 0x81, 0xb7, 0x34, 0xca, 0x72, 0xa7, 0x19];
    for &e in expected.iter() {
        assert_eq!(c.update(), e);
    }
}

#[test]
fn rc4_first_byte_scenario() {
    let key = vec![0x01, 0x23, 0x45, 0x67, 0x89, 0xab, 0xcd, 0xef];
    let mut c = RC4::new(&key).unwrap();
    assert_eq!(c.update(), 0x74);
    let rest = [
        0x94, 0xc2, 0xe7, 0x10, 0x4b, 0x08, 0x79, 0x0d, 0x4b, 0xd5, 0x53, 0x32, 0x8f, 0x1e, 0xfc,
    ];
    for &e in rest.iter() {
        assert_eq!(c.update(), e);
    }
}

#[test]
fn rc4_determinism() {
    let key = vec![0x01, 0x23, 0x45, 0x67, 0x89, 0xab, 0xcd, 0xef];
    let mut a = RC4::new(&key).unwrap();
    let mut b = RC4::new(&key).unwrap();
    for _ in 0..64 {
        assert_eq!(a.update(), b.update());
    }
}

#[test]
fn rc4_permutation_invariant() {
    let key = vec![0x01, 0x23, 0x45, 0x67, 0x89, 0xab, 0xcd, 0xef];
    let mut c = RC4::new(&key).unwrap();
    assert!(table_is_permutation(&c.state));
    for _ in 0..32 {
        c.update();
        assert!(table_is_permutation(&c.state));
    }
}

#[test]
fn rc4_key_length_boundary() {
    let empty: Vec<u8> = Vec::new();
    assert!(matches!(RC4::new(&empty), Err(InitError::EmptyKey)));
    let full = vec![0xa5u8; 256];
    assert!(RC4::new(&full).is_ok());
    let over = vec![0xa5u8; 257];
    assert!(matches!(RC4::new(&over), Err(InitError::KeyTooLong)));
}
