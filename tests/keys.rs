use wallet_keys::{
    AtomicKeypair, DecryptionError, DeserializeStoredKeypairError, EncryptedKeypair, Keypair,
    StoredKeypair, ENVELOPE_LEN, KEYPAIR_LEN, SALT_LEN, SEAL_OVERHEAD,
};

fn sample_bytes() -> Vec<u8> {
    (0..64u8).collect()
}

fn sample_keypair() -> Keypair {
    Keypair::try_from_slice(&sample_bytes()).unwrap()
}

fn zero_private_keypair() -> Keypair {
    let mut bytes = vec![0u8; 32];
    bytes.extend((1..=32u8).map(|b| b.wrapping_mul(7)));
    Keypair::try_from_slice(&bytes).unwrap()
}

#[test]
fn keypair_needs_exactly_64_bytes() {
    assert!(Keypair::try_from_slice(&[0u8; 63]).is_err());
    assert!(Keypair::try_from_slice(&[0u8; 65]).is_err());
    assert!(Keypair::try_from_slice(&[]).is_err());
    assert_eq!(sample_keypair().to_bytes(), sample_bytes());
}

#[test]
fn keypair_public_half() {
    let k = sample_keypair();
    assert_eq!(k.public(), (32..64u8).collect::<Vec<u8>>());
    let h = AtomicKeypair::from_keypair(k);
    assert_eq!(h.public(), (32..64u8).collect::<Vec<u8>>());
    let g: AtomicKeypair = sample_keypair().into();
    assert_eq!(g.to_bytes(), sample_bytes());
}

#[test]
fn keypair_hex_text() {
    let k = sample_keypair();
    let text = k.to_hex();
    assert_eq!(text.len(), 128);
    assert!(text.starts_with("000102030405060708090a0b0c0d0e0f10"));
    assert!(text.ends_with("3d3e3f"));
    let back = Keypair::from_hex(&text).unwrap();
    assert_eq!(back.to_bytes(), sample_bytes());
    let upper = Keypair::from_hex(&text.to_uppercase()).unwrap();
    assert_eq!(upper.to_bytes(), sample_bytes());
    assert!(Keypair::from_hex("abc").is_err());
    assert!(Keypair::from_hex("zz").is_err());
    assert!(Keypair::from_hex("00ff").is_err());
}

#[test]
fn raw_round_trip() {
    let handle = AtomicKeypair::from_keypair(sample_keypair());
    let (stored, back) = StoredKeypair::new(handle, None);
    assert!(!stored.is_encrypted());
    assert!(!stored.needs_password(true));
    assert_eq!(back.to_bytes(), sample_bytes());
    let got = stored.get(false, "").unwrap();
    assert_eq!(got.to_bytes(), sample_bytes());
    let got = stored.get(true, "").unwrap();
    assert_eq!(got.to_bytes(), sample_bytes());
}

#[test]
fn password_round_trip() {
    let handle = AtomicKeypair::from_keypair(sample_keypair());
    let (stored, back) = StoredKeypair::new(handle, Some("hunter2".to_string()));
    assert!(stored.is_encrypted());
    assert!(stored.needs_password(true));
    assert!(!stored.needs_password(false));
    assert_eq!(back.to_bytes(), sample_bytes());
    let got = stored.get(true, "hunter2").unwrap();
    assert_eq!(got.to_bytes(), sample_bytes());
}

#[test]
fn wrong_password_fails() {
    let e = EncryptedKeypair::new(&sample_keypair(), "first");
    assert_eq!(e.decrypt("second").unwrap_err(), DecryptionError::DecryptionError);
}

#[test]
fn decline_to_decrypt() {
    let e = EncryptedKeypair::from_bytes(vec![7u8; ENVELOPE_LEN]);
    let stored = StoredKeypair::Encrypted(e);
    assert_eq!(stored.get(false, "").unwrap_err(), DecryptionError::NotDecrypting);
}

#[test]
fn short_envelope_is_bad_salt() {
    let e = EncryptedKeypair::from_bytes(vec![1, 2, 3]);
    assert_eq!(e.decrypt("pw").unwrap_err(), DecryptionError::BadSalt);
}

#[test]
fn corrupted_envelope_fails_to_decrypt() {
    let e = EncryptedKeypair::from_bytes(vec![9u8; SALT_LEN + 10]);
    assert_eq!(e.decrypt("pw").unwrap_err(), DecryptionError::DecryptionError);
}

#[test]
fn envelope_layout() {
    let e = EncryptedKeypair::new(&sample_keypair(), "pw");
    assert_eq!(e.as_bytes().len(), SALT_LEN + KEYPAIR_LEN + SEAL_OVERHEAD);
    assert_eq!(ENVELOPE_LEN, 120);
    let text = e.to_hex();
    assert_eq!(text.len(), 240);
    let back = EncryptedKeypair::from_hex(&text).unwrap();
    assert_eq!(back.as_bytes(), e.as_bytes());
    assert!(EncryptedKeypair::from_hex("0g").is_err());
}

#[test]
fn raw_text_round_trip() {
    let handle = AtomicKeypair::from_keypair(sample_keypair());
    let (stored, _) = StoredKeypair::new(handle, None);
    let text = stored.encode();
    let mut expected = String::from("unencrypted:");
    for b in 0..64u8 {
        expected.push_str(&format!("{:02x}", b));
    }
    assert_eq!(text, expected);
    let back = StoredKeypair::decode(&text).unwrap();
    assert!(!back.is_encrypted());
    assert_eq!(back.get(false, "").unwrap().to_bytes(), sample_bytes());
}

#[test]
fn encrypted_text_round_trip() {
    let e = EncryptedKeypair::from_bytes((0..120u8).collect());
    let stored = StoredKeypair::Encrypted(e);
    let text = stored.encode();
    assert!(text.starts_with("encrypted:"));
    assert_eq!(text.len(), 10 + 240);
    match StoredKeypair::decode(&text).unwrap() {
        StoredKeypair::Encrypted(back) => {
            assert_eq!(back.as_bytes(), (0..120u8).collect::<Vec<u8>>().as_slice())
        }
        StoredKeypair::Raw(_) => panic!("expected an encrypted keypair"),
    }
}

#[test]
fn decode_accepts_uppercase_hex() {
    let text = format!("encrypted:{}", "AB".repeat(20));
    match StoredKeypair::decode(&text).unwrap() {
        StoredKeypair::Encrypted(back) => assert_eq!(back.as_bytes(), &[0xab; 20][..]),
        StoredKeypair::Raw(_) => panic!("expected an encrypted keypair"),
    }
}

#[test]
fn missing_prefix_rejected() {
    for text in ["", "raw:00", "Encrypted:00", "unencrypted", "0011", "xencrypted:00"] {
        assert_eq!(
            StoredKeypair::decode(text).unwrap_err(),
            DeserializeStoredKeypairError::MissingPrefix
        );
    }
}

#[test]
fn invalid_payload_rejected() {
    let cases = [
        "unencrypted:0g",
        "unencrypted:abc",
        "unencrypted:00ff",
        "encrypted:xyz",
        "encrypted:123",
    ];
    for text in cases {
        match StoredKeypair::decode(text) {
            Err(DeserializeStoredKeypairError::InvalidStoredKeypairString(msg)) => {
                assert!(!msg.is_empty())
            }
            _ => panic!("expected an invalid payload error for {}", text),
        }
    }
    assert!(StoredKeypair::decode("encrypted:").is_ok());
}

#[test]
fn salt_uniqueness() {
    let k = sample_keypair();
    let first = EncryptedKeypair::new(&k, "same");
    let second = EncryptedKeypair::new(&k, "same");
    assert_ne!(first.as_bytes(), second.as_bytes());
    assert_ne!(&first.as_bytes()[..SALT_LEN], &second.as_bytes()[..SALT_LEN]);
}

#[test]
fn salt_uniqueness_both_decrypt() {
    let k = sample_keypair();
    let first = EncryptedKeypair::new(&k, "same");
    let second = EncryptedKeypair::new(&k, "same");
    assert_eq!(first.decrypt("same").unwrap().to_bytes(), sample_bytes());
    assert_eq!(second.decrypt("same").unwrap().to_bytes(), sample_bytes());
}

#[test]
fn handle_sharing() {
    let a = AtomicKeypair::from_keypair(sample_keypair());
    let b = a.clone();
    let (stored, c) = StoredKeypair::new(a.clone(), None);
    b.set(zero_private_keypair());
    let expected = zero_private_keypair().to_bytes();
    assert_eq!(a.to_bytes(), expected);
    assert_eq!(c.to_bytes(), expected);
    assert_eq!(stored.get(false, "").unwrap().to_bytes(), expected);
    assert_eq!(b.keypair().to_bytes(), expected);
}

#[test]
fn handle_snapshot_is_stable() {
    let a = AtomicKeypair::from_keypair(sample_keypair());
    let b = a.clone();
    let snap = a.keypair();
    b.set(zero_private_keypair());
    assert_eq!(snap.to_bytes(), sample_bytes());
    assert_eq!(a.to_bytes(), zero_private_keypair().to_bytes());
}

#[test]
fn concrete_scenario_correct_password() {
    let k = zero_private_keypair();
    let original = k.to_bytes();
    assert_eq!(original.len(), 64);
    let (stored, _) = StoredKeypair::new(AtomicKeypair::from_keypair(k), Some("correct".to_string()));
    let text = stored.encode();
    assert!(text.starts_with("encrypted:"));
    let decoded = StoredKeypair::decode(&text).unwrap();
    match &decoded {
        StoredKeypair::Encrypted(e) => assert_eq!(e.as_bytes().len(), SALT_LEN + 64 + SEAL_OVERHEAD),
        StoredKeypair::Raw(_) => panic!("expected an encrypted keypair"),
    }
    assert_eq!(decoded.get(true, "correct").unwrap().to_bytes(), original);
}

#[test]
fn concrete_scenario_wrong_password() {
    let k = zero_private_keypair();
    let (stored, _) = StoredKeypair::new(AtomicKeypair::from_keypair(k), Some("correct".to_string()));
    let decoded = StoredKeypair::decode(&stored.encode()).unwrap();
    assert_eq!(decoded.get(true, "wrong").unwrap_err(), DecryptionError::DecryptionError);
}
