use lightning_channel::payment::PaymentHash;
use lightning_channel::script::{
    get_htlc_redeemscript_with_explicit_keys, get_revokeable_redeemscript, make_funding_redeemscript,
    to_p2wsh, HTLCOutputInCommitment,
};

fn point(b: u8) -> [u8; 33] {
    let secp = secp256k1::Secp256k1::new();
    let sk = secp256k1::SecretKey::from_slice(&[b; 32]).unwrap();
    secp256k1::PublicKey::from_secret_key(&secp, &sk).serialize()
}

#[test]
fn revokeable_script_bytes() {
    let rk = point(1);
    let dk = point(2);
    let s = get_revokeable_redeemscript(&rk, 144, &dk);
    let mut expected = vec![0x63, 33];
    expected.extend_from_slice(&rk);
    expected.extend_from_slice(&[0x67, 0x02, 0x90, 0x00, 0xb2, 0x75, 33]);
    expected.extend_from_slice(&dk);
    expected.extend_from_slice(&[0x68, 0xac]);
    assert_eq!(s, expected);
    let small = get_revokeable_redeemscript(&rk, 6, &dk);
    assert_eq!(small[36], 0x56);
    let mid = get_revokeable_redeemscript(&rk, 100, &dk);
    assert_eq!(&mid[36..38], &[0x01, 100]);
}

#[test]
fn funding_script_ignores_argument_order() {
    let a = point(3);
    let b = point(4);
    let s1 = make_funding_redeemscript(&a, &b);
    let s2 = make_funding_redeemscript(&b, &a);
    assert_eq!(s1, s2);
    assert_eq!(s1.len(), 71);
    assert_eq!(s1[0], 0x52);
    assert_eq!(&s1[69..], &[0x52, 0xae]);
    let (first, second) = if a < b { (a, b) } else { (b, a) };
    assert_eq!(&s1[2..35], &first[..]);
    assert_eq!(&s1[36..69], &second[..]);
}

#[test]
fn htlc_scripts() {
    let a = point(5);
    let b = point(6);
    let r = point(7);
    let offered = HTLCOutputInCommitment { offered: true, amount_msat: 10_000, cltv_expiry: 500_000, payment_hash: PaymentHash([9; 32]), transaction_output_index: None };
    let received = HTLCOutputInCommitment { offered: false, ..offered };
    let so = get_htlc_redeemscript_with_explicit_keys(&offered, &a, &b, &r);
    let sr = get_htlc_redeemscript_with_explicit_keys(&received, &a, &b, &r);
    assert_eq!(&so[..3], &[0x76, 0xa9, 20]);
    assert_eq!(so.len(), 133);
    assert_eq!(sr.len(), 139);
    assert_eq!(&sr[sr.len() - 11..sr.len() - 5], &[0x67, 0x75, 0x03, 0x20, 0xa1, 0x07]);
    assert_eq!(&so[so.len() - 3..], &[0xac, 0x68, 0x68]);
}

#[test]
fn p2wsh_of_script() {
    let s = vec![0x51u8];
    let w = to_p2wsh(&s);
    assert_eq!(&w[..2], &[0x00, 0x20]);
    assert_eq!(&w[2..], &bitcoin_hashes::Hash::into_inner(<bitcoin_hashes::sha256::Hash as bitcoin_hashes::Hash>::hash(&s))[..]);
}
