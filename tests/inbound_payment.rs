use lightning_channel::inbound_payment::{
    construct_metadata_bytes, create, create_from_hash, get_payment_preimage, verify, ExpandedKey,
    FinalOnionHopData, Method, PreimageError, MAX_VALUE_MSAT,
};
use lightning_channel::payment::{PaymentHash, PaymentSecret};

fn sha256(data: &[u8]) -> [u8; 32] {
    bitcoin_hashes::Hash::into_inner(<bitcoin_hashes::sha256::Hash as bitcoin_hashes::Hash>::hash(data))
}

fn keys() -> ExpandedKey {
    ExpandedKey::new(&[0x5au8; 32])
}

fn random() -> [u8; 32] {
    let mut r = [0u8; 32];
    for i in 0..32 {
        r[i] = (i as u8).wrapping_mul(37).wrapping_add(11);
    }
    r
}

#[test]
fn method_from_bits() {
    assert_eq!(Method::from_bits(0), Ok(Method::NodePaymentHash));
    assert_eq!(Method::from_bits(1), Ok(Method::UserPaymentHash));
    assert_eq!(Method::from_bits(5), Err(5));
}

#[test]
fn metadata_layout() {
    let m = construct_metadata_bytes(Some(0x0102), Method::UserPaymentHash, 100, 1000).unwrap();
    assert_eq!(m[..8], [0x20, 0, 0, 0, 0, 0, 0x01, 0x02]);
    let expiry = 1000u64 + 100 + 7200;
    assert_eq!(m[8..], expiry.to_be_bytes());
    let none = construct_metadata_bytes(None, Method::NodePaymentHash, 0, 0).unwrap();
    assert_eq!(none[..8], [0u8; 8]);
    assert!(construct_metadata_bytes(Some(MAX_VALUE_MSAT + 1), Method::NodePaymentHash, 0, 0).is_err());
    assert!(construct_metadata_bytes(Some(MAX_VALUE_MSAT), Method::NodePaymentHash, 0, 0).is_ok());
}

#[test]
fn create_then_verify_round_trip() {
    let k = keys();
    let (hash, secret) = create(&k, Some(50_000), 3600, &random(), 1_700_000_000).unwrap();
    assert_ne!(secret.0[..16], [0u8; 16]);
    assert_eq!(secret.0[..16], random()[..16]);
    let data = FinalOnionHopData { payment_secret: secret, total_msat: 50_000 };
    let preimage = verify(hash, data, 1_700_000_000, &k).unwrap().unwrap();
    assert_eq!(sha256(&preimage.0), hash.0);
    let again = get_payment_preimage(hash, secret, &k).unwrap();
    assert_eq!(again.0, preimage.0);
}

#[test]
fn verify_rejects_below_floor() {
    let k = keys();
    let (hash, secret) = create(&k, Some(50_000), 3600, &random(), 1_700_000_000).unwrap();
    let data = FinalOnionHopData { payment_secret: secret, total_msat: 49_999 };
    assert!(verify(hash, data, 1_700_000_000, &k).is_err());
}

#[test]
fn verify_rejects_expired() {
    let k = keys();
    let (hash, secret) = create(&k, None, 3600, &random(), 1_700_000_000).unwrap();
    let expiry = 1_700_000_000u64 + 3600 + 7200;
    let ok = FinalOnionHopData { payment_secret: secret, total_msat: 1 };
    assert!(verify(hash, ok, expiry, &k).is_ok());
    let late = FinalOnionHopData { payment_secret: secret, total_msat: 1 };
    assert!(verify(hash, late, expiry + 1, &k).is_err());
}

#[test]
fn verify_rejects_every_flipped_bit() {
    let k = keys();
    let (hash, secret) = create(&k, Some(1000), 3600, &random(), 1_700_000_000).unwrap();
    for byte in 16..32 {
        for bit in 0..8 {
            let mut bad = secret.0;
            bad[byte] ^= 1 << bit;
            let data = FinalOnionHopData { payment_secret: PaymentSecret(bad), total_msat: u64::MAX };
            assert!(verify(hash, data, 0, &k).is_err());
        }
    }
}

#[test]
fn verify_rejects_other_keys_and_hash() {
    let k = keys();
    let (hash, secret) = create(&k, None, 3600, &random(), 10).unwrap();
    let other = ExpandedKey::new(&[0x5bu8; 32]);
    let data = FinalOnionHopData { payment_secret: secret, total_msat: 1 };
    assert!(verify(hash, data, 10, &other).is_err());
    let mut wrong = hash.0;
    wrong[0] ^= 1;
    assert!(verify(PaymentHash(wrong), data, 10, &k).is_err());
    assert_eq!(get_payment_preimage(PaymentHash(wrong), secret, &k).unwrap_err(), PreimageError::HashMismatch);
}

#[test]
fn create_rejects_amount_over_supply() {
    let k = keys();
    assert!(create(&k, Some(MAX_VALUE_MSAT + 1), 3600, &random(), 10).is_err());
    assert!(create_from_hash(&k, Some(MAX_VALUE_MSAT + 1), PaymentHash([1; 32]), 3600, 10).is_err());
}

#[test]
fn user_hash_round_trip() {
    let k = keys();
    let hash = PaymentHash(sha256(b"user preimage"));
    let secret = create_from_hash(&k, Some(20_000), hash, 600, 500).unwrap();
    let data = FinalOnionHopData { payment_secret: secret, total_msat: 20_000 };
    assert!(verify(hash, data, 500, &k).unwrap().is_none());
    let low = FinalOnionHopData { payment_secret: secret, total_msat: 19_999 };
    assert!(verify(hash, low, 500, &k).is_err());
    assert_eq!(get_payment_preimage(hash, secret, &k).unwrap_err(), PreimageError::UserPaymentHash);
    let other_hash = PaymentHash(sha256(b"another"));
    assert!(verify(other_hash, data, 500, &k).is_err());
}

#[test]
fn expanded_keys_depend_on_material() {
    let (h1, s1) = create(&ExpandedKey::new(&[1u8; 32]), None, 0, &random(), 0).unwrap();
    let (h2, s2) = create(&ExpandedKey::new(&[2u8; 32]), None, 0, &random(), 0).unwrap();
    assert_ne!(h1.0, h2.0);
    assert_ne!(s1.0[16..], s2.0[16..]);
}
