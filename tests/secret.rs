use distrand::{Commit, RevealErrorKind, Secret};

fn secret_with(value: u64, key_byte: u8) -> Secret {
    let mut bytes = value.to_le_bytes().to_vec();
    bytes.extend(std::iter::repeat(key_byte).take(128));
    Secret::from_bytes(&bytes).unwrap()
}

fn hex(bytes: &[u8]) -> String {
    bytes.iter().map(|b| format!("{:02x}", b)).collect()
}

#[test]
fn new() {
    let mut rng = rand::thread_rng();

    let s: Secret = Secret::new(&mut rng, 4);

    assert_eq!(s.value(), 4);
    assert_eq!(s.key().len(), 128);
}

#[test]
fn secret_serialize_deserialize() {
    let secret = Secret::from_bytes(&[0; 136]).unwrap();

    let bytes = secret.to_bytes();

    let _: Secret = Secret::from_bytes(&bytes).unwrap();
}

#[test]
fn commit_serialize_deserialize() {
    let commit = Commit::from_bytes(&[0; 64]).unwrap();

    let bytes = commit.to_bytes();

    let _: Commit = Commit::from_bytes(&bytes).unwrap();
}

#[test]
fn new_key_is_random() {
    let mut rng = rand::thread_rng();
    let s = Secret::new(&mut rng, 4);
    assert!(s.key().iter().any(|b| *b != 0));
}

#[test]
fn commit_then_validate_returns_value() {
    let mut rng = rand::thread_rng();
    for v in [0u64, 1, 3, 0xdead_beef, u64::MAX] {
        let s = Secret::new(&mut rng, v);
        let c = s.commit().unwrap();
        assert_eq!(s.validate(&c), Ok(v));
    }
}

#[test]
fn commit_is_hmac_sha512_of_encoded_value() {
    let c = secret_with(3, 0x0b).commit().unwrap();
    assert_eq!(
        hex(&c.to_bytes()),
        "e43094ca233b0d50c396e6903a8b118dab03cbdb4fbd2328645cb0545f5ecb7d\
         e2490576ea987823c0c4384b6056b048d19fffd5167f9d25458f2b45fd878955"
    );
}

#[test]
fn validate_rejects_other_value_or_key() {
    let c = secret_with(9, 7).commit().unwrap();
    assert_eq!(secret_with(2, 7).validate(&c), Err(RevealErrorKind::ValidationFailed));
    assert_eq!(secret_with(9, 8).validate(&c), Err(RevealErrorKind::ValidationFailed));
    assert_eq!(secret_with(9, 7).validate(&c), Ok(9));
}

#[test]
fn same_value_with_fresh_keys_gives_different_commits() {
    let mut rng = rand::thread_rng();
    let a = Secret::new(&mut rng, 5).commit().unwrap();
    let b = Secret::new(&mut rng, 5).commit().unwrap();
    assert_ne!(a.to_bytes(), b.to_bytes());
    assert!(!a.ct_eq(&b));
}

#[test]
fn secret_bytes_round_trip_exactly() {
    let mut rng = rand::thread_rng();
    let s = Secret::new(&mut rng, 0x0102_0304_0506_0708);
    let bytes = s.to_bytes();
    assert_eq!(bytes.len(), 136);
    assert_eq!(&bytes[..8], &[8, 7, 6, 5, 4, 3, 2, 1]);
    assert_eq!(&bytes[8..], &s.key()[..]);
    let back = Secret::from_bytes(&bytes).unwrap();
    assert_eq!(back.value(), s.value());
    assert_eq!(back.key(), s.key());
    assert_eq!(back.to_bytes(), bytes);
}

#[test]
fn secret_from_bytes_reads_little_endian_value() {
    let s = secret_with(5, 1);
    assert_eq!(s.value(), 5);
    assert_eq!(s.key(), vec![1u8; 128]);
}

#[test]
fn secret_from_bytes_rejects_wrong_length() {
    assert!(Secret::from_bytes(&[0; 135]).is_none());
    assert!(Secret::from_bytes(&[0; 137]).is_none());
    assert!(Secret::from_bytes(&[]).is_none());
}

#[test]
fn commit_bytes_round_trip_exactly() {
    let bytes: Vec<u8> = (0..64u8).collect();
    let c = Commit::from_bytes(&bytes).unwrap();
    assert_eq!(c.to_bytes(), bytes);
    let d = Commit::from_bytes(&c.to_bytes()).unwrap();
    assert!(c.ct_eq(&d));
}

#[test]
fn commit_from_bytes_rejects_wrong_length() {
    assert!(Commit::from_bytes(&[0; 32]).is_none());
    assert!(Commit::from_bytes(&[0; 65]).is_none());
}

#[test]
fn commit_is_not_the_encoded_value() {
    let c = secret_with(3, 0).commit().unwrap();
    let bytes = c.to_bytes();
    assert_eq!(bytes.len(), 64);
    assert_ne!(&bytes[..8], &3u64.to_le_bytes());
}
