//! The cryptographic primitives this crate consumes: SHA-256, HMAC-SHA256, RIPEMD-160, a
//! constant-time comparison, the ChaCha20 block function, and secp256k1 scalar and point
//! arithmetic and ECDSA signing.
//!
//! Secret keys are held as 32 big-endian bytes and public keys as their 33-byte compressed
//! encoding. Scalar arithmetic is stated exactly, modulo the curve order; what a point is, and
//! what a hash or a signature is, is named and not spelt out.

use bitcoin_hashes::HashEngine;
use chacha20::cipher::KeyIvInit;
use chacha20::cipher::StreamCipherCore;
use chacha20::cipher::StreamCipherSeekCore;
use vstd::prelude::*;

verus! {

/// The SHA-256 digest of `data`.
pub uninterp spec fn sha256_of(data: Seq<u8>) -> Seq<u8>;

/// The HMAC-SHA256 tag of `msg` under `key`.
pub uninterp spec fn hmac_sha256_of(key: Seq<u8>, msg: Seq<u8>) -> Seq<u8>;

/// The RIPEMD-160 digest of `data`.
pub uninterp spec fn ripemd160_of(data: Seq<u8>) -> Seq<u8>;

/// The first 16 bytes of the ChaCha20 keystream block for `key`, whose block counter is the
/// little-endian value of `iv[0..4]` and whose nonce is `iv[4..16]`.
pub uninterp spec fn chacha20_block_of(key: Seq<u8>, iv: Seq<u8>) -> Seq<u8>;

/// The compressed encoding of the point `secret * G`.
pub uninterp spec fn point_of(secret: Seq<u8>) -> Seq<u8>;

/// The DER encoding of the deterministic (RFC 6979) ECDSA signature of `msg` under `secret`.
pub uninterp spec fn ecdsa_der_of(msg: Seq<u8>, secret: Seq<u8>) -> Seq<u8>;

/// 256 to the power `k`.
pub open spec fn pow256(k: nat) -> nat
    decreases k,
{
    if k == 0 {
        1
    } else {
        256 * pow256((k - 1) as nat)
    }
}

/// The big-endian value of `s`.
pub open spec fn be_value(s: Seq<u8>) -> nat
    decreases s.len(),
{
    if s.len() == 0 {
        0
    } else {
        be_value(s.drop_last()) * 256 + s.last() as nat
    }
}

/// The 32-byte big-endian encoding of `x` (taken modulo 2^256).
pub open spec fn be32(x: nat) -> Seq<u8> {
    Seq::new(32, |i: int| ((x / pow256((31 - i) as nat)) % 256) as u8)
}

/// The order of the secp256k1 group.
pub open spec fn curve_order() -> nat {
    let b: nat = 0x1_0000_0000_0000_0000;
    ((0xFFFF_FFFF_FFFF_FFFFnat * b + 0xFFFF_FFFF_FFFF_FFFEnat) * b + 0xBAAE_DCE6_AF48_A03Bnat) * b
        + 0xBFD2_5E8C_D036_4141nat
}

/// `s` is a secret key: 32 bytes whose value is neither zero nor past the group order.
pub open spec fn valid_secret(s: Seq<u8>) -> bool {
    s.len() == 32 && 0 < be_value(s) < curve_order()
}

/// The sum of two scalars, modulo the group order.
pub open spec fn scalar_add(a: Seq<u8>, b: Seq<u8>) -> Seq<u8> {
    be32((be_value(a) + be_value(b)) % curve_order())
}

/// The product of two scalars, modulo the group order.
pub open spec fn scalar_mul(a: Seq<u8>, b: Seq<u8>) -> Seq<u8> {
    be32((be_value(a) * be_value(b)) % curve_order())
}

/// Relies on bitcoin_hashes' `sha256::Hash::hash`: the SHA-256 digest of `data`.
#[verifier::external_body]
pub(crate) fn sha256(data: &[u8]) -> (r: [u8; 32])
    ensures
        r@ == sha256_of(data@),
{
    bitcoin_hashes::Hash::into_inner(<bitcoin_hashes::sha256::Hash as bitcoin_hashes::Hash>::hash(data))
}

/// Relies on bitcoin_hashes' `HmacEngine<sha256::Hash>`: the HMAC-SHA256 tag of `msg` under
/// `key`.
#[verifier::external_body]
pub(crate) fn hmac_sha256(key: &[u8], msg: &[u8]) -> (r: [u8; 32])
    ensures
        r@ == hmac_sha256_of(key@, msg@),
{
    let mut engine = bitcoin_hashes::hmac::HmacEngine::<bitcoin_hashes::sha256::Hash>::new(key);
    engine.input(msg);
    let tag = <bitcoin_hashes::hmac::Hmac<bitcoin_hashes::sha256::Hash> as bitcoin_hashes::Hash>::from_engine(engine);
    bitcoin_hashes::Hash::into_inner(tag)
}

/// Relies on bitcoin_hashes' `ripemd160::Hash::hash`: the RIPEMD-160 digest of `data`.
#[verifier::external_body]
pub(crate) fn ripemd160(data: &[u8]) -> (r: [u8; 20])
    ensures
        r@ == ripemd160_of(data@),
{
    bitcoin_hashes::Hash::into_inner(<bitcoin_hashes::ripemd160::Hash as bitcoin_hashes::Hash>::hash(data))
}

/// Relies on bitcoin_hashes' `cmp::fixed_time_eq`: slice equality, in time that depends on the
/// length alone. It panics on slices of different lengths.
#[verifier::external_body]
pub(crate) fn fixed_time_eq(a: &[u8], b: &[u8]) -> (r: bool)
    requires
        a@.len() == b@.len(),
    ensures
        r == (a@ == b@),
{
    bitcoin_hashes::cmp::fixed_time_eq(a, b)
}

/// Relies on chacha20's `ChaChaCore` (20 rounds): the first 16 bytes of one keystream block,
/// with the block counter taken from `iv[0..4]` and the 96-bit nonce from `iv[4..16]`.
#[verifier::external_body]
pub(crate) fn chacha20_block(key: &[u8; 32], iv: &[u8; 16]) -> (r: [u8; 16])
    ensures
        r@ == chacha20_block_of(key@, iv@),
{
    let mut core = chacha20::ChaChaCore::<chacha20::cipher::consts::U10>::new(key.into(), (&iv[4..]).into());
    core.set_block_pos(u32::from_le_bytes([iv[0], iv[1], iv[2], iv[3]]));
    let mut block = Default::default();
    core.write_keystream_block(&mut block);
    let mut r = [0u8; 16];
    r.copy_from_slice(&block[..16]);
    r
}

/// Relies on secp256k1's `PublicKey::from_secret_key` and `serialize`: the compressed
/// encoding of `secret * G`. `SecretKey::from_slice` refuses a value outside the group.
#[verifier::external_body]
pub(crate) fn public_key_of(secret: &[u8; 32]) -> (r: [u8; 33])
    requires
        valid_secret(secret@),
    ensures
        r@ == point_of(secret@),
{
    let sk = secp256k1::SecretKey::from_slice(secret).unwrap();
    secp256k1::PublicKey::from_secret_key(&secp256k1::Secp256k1::new(), &sk).serialize()
}

/// Adding `t` to the secret `k` gives a valid key: `t` is below the group order and the sum is
/// not zero.
pub open spec fn tweak_add_ok(k: Seq<u8>, t: Seq<u8>) -> bool {
    be_value(t) < curve_order() && valid_secret(scalar_add(k, t))
}

/// Multiplying the secret `k` by `t` gives a valid key: `t` is below the group order and the
/// product is not zero.
pub open spec fn tweak_mul_ok(k: Seq<u8>, t: Seq<u8>) -> bool {
    be_value(t) < curve_order() && valid_secret(scalar_mul(k, t))
}

/// Relies on secp256k1's `SecretKey::add_tweak`: `secret + tweak` modulo the group order, or
/// `None` exactly where the tweak is not below the group order (`Scalar::from_be_bytes`) or
/// the sum is zero.
#[verifier::external_body]
pub(crate) fn secret_add(secret: &[u8; 32], tweak: &[u8; 32]) -> (r: Option<[u8; 32]>)
    requires
        valid_secret(secret@),
    ensures
        r is Some <==> tweak_add_ok(secret@, tweak@),
        r matches Some(s) ==> s@ == scalar_add(secret@, tweak@) && valid_secret(s@),
{
    let sk = secp256k1::SecretKey::from_slice(secret).unwrap();
    let t = secp256k1::Scalar::from_be_bytes(*tweak).ok()?;
    sk.add_tweak(&t).ok().map(|k| k.secret_bytes())
}

/// Relies on secp256k1's `SecretKey::mul_tweak`: `secret * tweak` modulo the group order, or
/// `None` exactly where the tweak is not below the group order or the product is zero.
#[verifier::external_body]
pub(crate) fn secret_mul(secret: &[u8; 32], tweak: &[u8; 32]) -> (r: Option<[u8; 32]>)
    requires
        valid_secret(secret@),
    ensures
        r is Some <==> tweak_mul_ok(secret@, tweak@),
        r matches Some(s) ==> s@ == scalar_mul(secret@, tweak@) && valid_secret(s@),
{
    let sk = secp256k1::SecretKey::from_slice(secret).unwrap();
    let t = secp256k1::Scalar::from_be_bytes(*tweak).ok()?;
    sk.mul_tweak(&t).ok().map(|k| k.secret_bytes())
}

/// Relies on secp256k1's `PublicKey::add_exp_tweak`: the point `point + tweak * G`, that is,
/// for the secret `k` of `point`, the point of `k + tweak`. The point of a valid secret always
/// parses, so for such a point the result is `None` exactly where the tweak is out of range or
/// the result is the point at infinity.
#[verifier::external_body]
pub(crate) fn point_add_tweak(point: &[u8; 33], tweak: &[u8; 32]) -> (r: Option<[u8; 33]>)
    ensures
        forall|k: Seq<u8>|
            valid_secret(k) && point_of(k) == point@ ==> (r is Some <==> #[trigger] tweak_add_ok(
                k,
                tweak@,
            )),
        r matches Some(p) ==> forall|k: Seq<u8>|
            valid_secret(k) && point_of(k) == point@ ==> p@ == #[trigger] point_of(
                scalar_add(k, tweak@),
            ) && valid_secret(scalar_add(k, tweak@)),
{
    let pk = secp256k1::PublicKey::from_slice(point).ok()?;
    let t = secp256k1::Scalar::from_be_bytes(*tweak).ok()?;
    pk.add_exp_tweak(&secp256k1::Secp256k1::new(), &t).ok().map(|p| p.serialize())
}

/// Relies on secp256k1's `PublicKey::mul_tweak`: the point `tweak * point`, that is, for the
/// secret `k` of `point`, the point of `k * tweak`. For the point of a valid secret the result
/// is `None` exactly where the tweak is out of range or zero.
#[verifier::external_body]
pub(crate) fn point_mul_tweak(point: &[u8; 33], tweak: &[u8; 32]) -> (r: Option<[u8; 33]>)
    ensures
        forall|k: Seq<u8>|
            valid_secret(k) && point_of(k) == point@ ==> (r is Some <==> #[trigger] tweak_mul_ok(
                k,
                tweak@,
            )),
        r matches Some(p) ==> forall|k: Seq<u8>|
            valid_secret(k) && point_of(k) == point@ ==> p@ == #[trigger] point_of(
                scalar_mul(k, tweak@),
            ) && valid_secret(scalar_mul(k, tweak@)),
{
    let pk = secp256k1::PublicKey::from_slice(point).ok()?;
    let t = secp256k1::Scalar::from_be_bytes(*tweak).ok()?;
    pk.mul_tweak(&secp256k1::Secp256k1::new(), &t).ok().map(|p| p.serialize())
}

/// Relies on secp256k1's `PublicKey::combine`: the sum of two points, that is, for their
/// secrets `a` and `b`, the point of `a + b`. For points of valid secrets the result is `None`
/// exactly where the sum is the point at infinity.
#[verifier::external_body]
pub(crate) fn point_combine(p: &[u8; 33], q: &[u8; 33]) -> (r: Option<[u8; 33]>)
    ensures
        forall|a: Seq<u8>, b: Seq<u8>|
            valid_secret(a) && valid_secret(b) && point_of(a) == p@ && point_of(b) == q@ ==> (r is Some
                <==> valid_secret(#[trigger] scalar_add(a, b))),
        r matches Some(s) ==> forall|a: Seq<u8>, b: Seq<u8>|
            valid_secret(a) && valid_secret(b) && point_of(a) == p@ && point_of(b) == q@ ==> s@
                == #[trigger] point_of(scalar_add(a, b)) && valid_secret(scalar_add(a, b)),
{
    let a = secp256k1::PublicKey::from_slice(p).ok()?;
    let b = secp256k1::PublicKey::from_slice(q).ok()?;
    a.combine(&b).ok().map(|s| s.serialize())
}

/// Relies on secp256k1's `Secp256k1::sign_ecdsa` and `Signature::serialize_der`: the
/// deterministic signature of the 32-byte digest `msg` under `secret`, DER-encoded.
#[verifier::external_body]
pub(crate) fn ecdsa_sign(msg: &[u8; 32], secret: &[u8; 32]) -> (r: Vec<u8>)
    requires
        valid_secret(secret@),
    ensures
        r@ == ecdsa_der_of(msg@, secret@),
{
    let sk = secp256k1::SecretKey::from_slice(secret).unwrap();
    let m = secp256k1::Message::from_slice(msg).unwrap();
    secp256k1::Secp256k1::new().sign_ecdsa(&m, &sk).serialize_der().to_vec()
}

/// Relies on secp256k1's `SecretKey::from_slice`, which accepts exactly the 32-byte values
/// that are neither zero nor past the group order.
#[verifier::external_body]
pub(crate) fn is_valid_secret(secret: &[u8; 32]) -> (r: bool)
    ensures
        r == valid_secret(secret@),
{
    secp256k1::SecretKey::from_slice(secret).is_ok()
}

} // verus!
