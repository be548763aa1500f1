use lightning_channel::keys::{
    build_commitment_secret, derive_private_key, derive_private_revocation_key, derive_public_key,
    derive_public_revocation_key, ChannelPublicKeys, PreCalculatedTxCreationKeys, TxCreationKeys,
};

fn hex32(s: &str) -> [u8; 32] {
    let mut out = [0u8; 32];
    for i in 0..32 {
        out[i] = u8::from_str_radix(&s[2 * i..2 * i + 2], 16).unwrap();
    }
    out
}

fn hex33(s: &str) -> [u8; 33] {
    let mut out = [0u8; 33];
    for i in 0..33 {
        out[i] = u8::from_str_radix(&s[2 * i..2 * i + 2], 16).unwrap();
    }
    out
}

fn point(secret: &[u8; 32]) -> [u8; 33] {
    let secp = secp256k1::Secp256k1::new();
    let sk = secp256k1::SecretKey::from_slice(secret).unwrap();
    secp256k1::PublicKey::from_secret_key(&secp, &sk).serialize()
}

const BASE_SECRET: &str = "000102030405060708090a0b0c0d0e0f101112131415161718191a1b1c1d1e1f";
const PER_COMMITMENT_SECRET: &str = "1f1e1d1c1b1a191817161514131211100f0e0d0c0b0a09080706050403020100";
const BASE_POINT: &str = "036d6caac248af96f6afa7f904f550253a0f3ef3f5aa2fe6838a95b216691468e2";
const PER_COMMITMENT_POINT: &str = "025f7117a78150fe2ef97db7cfc83bd57b2e2c0d0dd25eaf467a4a1c2a45ce1486";

#[test]
fn commitment_secret_vectors() {
    assert_eq!(
        build_commitment_secret(&[0u8; 32], 281474976710655),
        hex32("02a40c85b6f28da08dfdbe0926c53fab2de6d28c10301f8f7c4073d5e42e3148")
    );
    assert_eq!(
        build_commitment_secret(&[0xffu8; 32], 281474976710655),
        hex32("7cc854b54e3e0dcdb010d7a3fee464a9687be6e8db3be6854c475621e007a5dc")
    );
    assert_eq!(
        build_commitment_secret(&[0xffu8; 32], 0xaaaaaaaaaaa),
        hex32("56f4008fb007ca9acf0e15b054d5c9fd12ee06cea347914ddbaed70d1c13a528")
    );
    assert_eq!(
        build_commitment_secret(&[0xffu8; 32], 0x555555555555),
        hex32("9015daaeb06dba4ccc05b91b2f73bd54405f2be9f217fbacd3c5ac2e62327d31")
    );
    assert_eq!(
        build_commitment_secret(&[0x01u8; 32], 1),
        hex32("915c75942a26bb3a433a8ce2cb0427c29ec6c1775cfc78328b57f6ba7bfeaa9c")
    );
}

#[test]
fn commitment_secret_index_zero_is_seed() {
    let seed = [7u8; 32];
    assert_eq!(build_commitment_secret(&seed, 0), seed);
}

#[test]
fn derivation_vectors() {
    let base_secret = hex32(BASE_SECRET);
    let per_commitment_secret = hex32(PER_COMMITMENT_SECRET);
    assert_eq!(point(&base_secret), hex33(BASE_POINT));
    assert_eq!(point(&per_commitment_secret), hex33(PER_COMMITMENT_POINT));

    let pcp = hex33(PER_COMMITMENT_POINT);
    let bp = hex33(BASE_POINT);
    assert_eq!(
        derive_public_key(&pcp, &bp).unwrap(),
        hex33("0235f2dbfaa89b57ec7b055afe29849ef7ddfeb1cefdb9ebdc43f5494984db29e5")
    );
    assert_eq!(
        derive_private_key(&pcp, &base_secret).unwrap(),
        hex32("cbced912d3b21bf196a766651e436aff192362621ce317704ea2f75d87e7be0f")
    );
    assert_eq!(
        derive_public_revocation_key(&pcp, &bp).unwrap(),
        hex33("02916e326636d19c33f13e8c0c3a03dd157f332f3e99c317c141dd865eb01f8ff0")
    );
    assert_eq!(
        derive_private_revocation_key(&per_commitment_secret, &base_secret).unwrap(),
        hex32("d09ffff62ddb2297ab000cc85bcb4283fdeb6aa052affbc9dddcf33b61078110")
    );
}

#[test]
fn private_and_public_derivation_agree() {
    for b in 1u8..6 {
        let base_secret = [b; 32];
        let pcp = point(&[b + 10; 32]);
        let private = derive_private_key(&pcp, &base_secret).unwrap();
        let public = derive_public_key(&pcp, &point(&base_secret)).unwrap();
        assert_eq!(point(&private), public);
        assert_ne!(private, base_secret);
    }
}

#[test]
fn revealed_secrets_give_predicted_revocation_keys() {
    let seed = [0x42u8; 32];
    let revocation_base_secret = [0x21u8; 32];
    let revocation_basepoint = point(&revocation_base_secret);
    for idx in [281474976710655u64, 281474976710654, 281474976710653, 1000] {
        let secret = build_commitment_secret(&seed, idx);
        let predicted = derive_public_revocation_key(&point(&secret), &revocation_basepoint).unwrap();
        let private = derive_private_revocation_key(&secret, &revocation_base_secret).unwrap();
        assert_eq!(point(&private), predicted);
    }
}

#[test]
fn derive_public_key_rejects_bad_point() {
    let bad = [0u8; 33];
    assert!(derive_public_key(&hex33(PER_COMMITMENT_POINT), &bad).is_err());
    assert!(derive_public_revocation_key(&bad, &hex33(BASE_POINT)).is_err());
}

#[test]
fn tx_creation_keys_derive_new() {
    let pcp = hex33(PER_COMMITMENT_POINT);
    let a_delayed = point(&[3u8; 32]);
    let a_htlc = point(&[4u8; 32]);
    let b_revocation = point(&[5u8; 32]);
    let b_htlc = point(&[6u8; 32]);
    let keys = TxCreationKeys::derive_new(&pcp, &a_delayed, &a_htlc, &b_revocation, &b_htlc).unwrap();
    assert_eq!(keys.per_commitment_point, pcp);
    assert_eq!(keys.revocation_key, derive_public_revocation_key(&pcp, &b_revocation).unwrap());
    assert_eq!(keys.a_htlc_key, derive_public_key(&pcp, &a_htlc).unwrap());
    assert_eq!(keys.b_htlc_key, derive_public_key(&pcp, &b_htlc).unwrap());
    assert_eq!(keys.a_delayed_payment_key, derive_public_key(&pcp, &a_delayed).unwrap());

    let pre = PreCalculatedTxCreationKeys::new(keys);
    assert_eq!(pre.per_commitment_point(), &pcp);
    assert_eq!(pre.trust_key_derivation().revocation_key, keys.revocation_key);

    let same = TxCreationKeys::new(pcp, keys.revocation_key, keys.a_htlc_key, keys.b_htlc_key, keys.a_delayed_payment_key);
    assert_eq!(same.a_delayed_payment_key, keys.a_delayed_payment_key);
}

#[test]
fn channel_public_keys_new() {
    let k = ChannelPublicKeys::new(point(&[1u8; 32]), point(&[2u8; 32]), point(&[3u8; 32]), point(&[4u8; 32]), point(&[5u8; 32]));
    assert_eq!(k.funding_pubkey, point(&[1u8; 32]));
    assert_eq!(k.revocation_basepoint, point(&[2u8; 32]));
    assert_eq!(k.payment_point, point(&[3u8; 32]));
    assert_eq!(k.delayed_payment_basepoint, point(&[4u8; 32]));
    assert_eq!(k.htlc_basepoint, point(&[5u8; 32]));
}
