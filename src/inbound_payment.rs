//! Stateless authentication of inbound payments.
//!
//! No record is kept of a pending inbound payment. The payment secret carries, encrypted, a
//! 16-byte metadata block: the payment type in the top three bits of byte 0, the minimum
//! amount in the remaining 61 bits of bytes 0 to 7, and the expiry time in bytes 8 to 15
//! (all big-endian). The secret is the 16-byte iv followed by the metadata XORed with a
//! ChaCha20 block keyed by the metadata key and that iv.

use crate::crypto::{
    chacha20_block, chacha20_block_of, fixed_time_eq, hmac_sha256, hmac_sha256_of, sha256,
    sha256_of,
};
use crate::payment::{PaymentHash, PaymentPreimage, PaymentSecret};
use vstd::prelude::*;

verus! {

/// The largest amount, in millisatoshis, that can exist: 21 million bitcoin.
pub const MAX_VALUE_MSAT: u64 = 2_100_000_000_000_000_000;

/// Number of bytes of the iv, and of the metadata block.
const IV_LEN: usize = 16;

/// Seconds added to every expiry to allow for block timestamps that run ahead of time.
const EXPIRY_MARGIN_SECS: u64 = 7200;

/// The type tag of a payment whose preimage this node derived.
pub const NODE_PAYMENT_HASH_TAG: u8 = 0;

/// The type tag of a payment whose hash the user supplied.
pub const USER_PAYMENT_HASH_TAG: u8 = 1;

/// The salt of the key expansion.
pub open spec fn expansion_salt() -> Seq<u8> {
    seq![
        0x4cu8, 0x44, 0x4b, 0x20, 0x49, 0x6e, 0x62, 0x6f, 0x75, 0x6e, 0x64, 0x20, 0x50, 0x61,
        0x79, 0x6d, 0x65, 0x6e, 0x74, 0x20, 0x4b, 0x65, 0x79, 0x20, 0x45, 0x78, 0x70, 0x61,
        0x6e, 0x73, 0x69, 0x6f, 0x6e,
    ]
}

/// HKDF (RFC 5869) with HMAC-SHA256: the pseudorandom key extracted from `ikm` under `salt`.
pub open spec fn hkdf_prk(salt: Seq<u8>, ikm: Seq<u8>) -> Seq<u8> {
    hmac_sha256_of(salt, ikm)
}

/// The first 32-byte block of the HKDF expansion.
pub open spec fn hkdf_t1(salt: Seq<u8>, ikm: Seq<u8>) -> Seq<u8> {
    hmac_sha256_of(hkdf_prk(salt, ikm), seq![1u8])
}

/// The second 32-byte block of the HKDF expansion.
pub open spec fn hkdf_t2(salt: Seq<u8>, ikm: Seq<u8>) -> Seq<u8> {
    hmac_sha256_of(hkdf_prk(salt, ikm), hkdf_t1(salt, ikm) + seq![2u8])
}

/// The third 32-byte block of the HKDF expansion.
pub open spec fn hkdf_t3(salt: Seq<u8>, ikm: Seq<u8>) -> Seq<u8> {
    hmac_sha256_of(hkdf_prk(salt, ikm), hkdf_t2(salt, ikm) + seq![3u8])
}

/// The big-endian bytes of `x`.
pub open spec fn be64(x: u64) -> Seq<u8> {
    seq![
        (x >> 56u64) as u8,
        (x >> 48u64) as u8,
        (x >> 40u64) as u8,
        (x >> 32u64) as u8,
        (x >> 24u64) as u8,
        (x >> 16u64) as u8,
        (x >> 8u64) as u8,
        x as u8,
    ]
}

/// The value of eight big-endian bytes.
pub open spec fn be_u64(s: Seq<u8>) -> u64 {
    (s[0] as u64) << 56u64 | (s[1] as u64) << 48u64 | (s[2] as u64) << 40u64 | (s[3] as u64)
        << 32u64 | (s[4] as u64) << 24u64 | (s[5] as u64) << 16u64 | (s[6] as u64) << 8u64 | (
    s[7] as u64)
}

/// The payment type tag of a metadata block.
pub open spec fn tag_of(metadata: Seq<u8>) -> u8 {
    (metadata[0] & 0b1110_0000u8) >> 5u8
}

/// The minimum amount of a metadata block.
pub open spec fn min_amount_of(metadata: Seq<u8>) -> u64 {
    be_u64(metadata.subrange(0, 8).update(0, metadata[0] & 0b0001_1111u8))
}

/// The expiry time of a metadata block.
pub open spec fn expiry_of(metadata: Seq<u8>) -> u64 {
    be_u64(metadata.subrange(8, 16))
}

/// The metadata block of a payment of type `tag`, with an optional minimum amount, expiring
/// `expiry_delta` seconds (plus the margin) after `highest_seen_timestamp`.
pub open spec fn metadata_bytes(
    min_value_msat: Option<u64>,
    tag: u8,
    expiry_delta: u32,
    highest_seen_timestamp: u64,
) -> Seq<u8> {
    let amt = match min_value_msat {
        Some(a) => a,
        None => 0u64,
    };
    let amt_bytes = be64(amt);
    amt_bytes.update(0, amt_bytes[0] | (tag << 5u8)) + be64(
        (highest_seen_timestamp + expiry_delta + 7200) as u64,
    )
}

/// Byte-wise XOR of the first 16 bytes of `a` and `b`.
pub open spec fn xor16(a: Seq<u8>, b: Seq<u8>) -> Seq<u8> {
    Seq::new(16, |i: int| a[i] ^ b[i])
}

/// The payment secret: the iv, then the metadata encrypted under the metadata key and the iv.
pub open spec fn secret_bytes(iv: Seq<u8>, metadata: Seq<u8>, metadata_key: Seq<u8>) -> Seq<u8> {
    iv + xor16(chacha20_block_of(metadata_key, iv), metadata)
}

/// The iv held in a payment secret.
pub open spec fn iv_of(secret: Seq<u8>) -> Seq<u8> {
    secret.subrange(0, 16)
}

/// The metadata block decrypted from a payment secret.
pub open spec fn decrypted_metadata(secret: Seq<u8>, metadata_key: Seq<u8>) -> Seq<u8> {
    xor16(chacha20_block_of(metadata_key, iv_of(secret)), secret.subrange(16, 32))
}

/// The preimage of a payment whose hash this node derived.
pub open spec fn node_preimage(node_key: Seq<u8>, iv: Seq<u8>, metadata: Seq<u8>) -> Seq<u8> {
    hmac_sha256_of(node_key, iv + metadata)
}

/// The iv bound to a user-supplied payment hash and a metadata block.
pub open spec fn user_iv(user_key: Seq<u8>, metadata: Seq<u8>, payment_hash: Seq<u8>) -> Seq<u8> {
    hmac_sha256_of(user_key, metadata + payment_hash).subrange(0, 16)
}

/// Keys expanded once from the node's inbound-payment key material.
pub struct ExpandedKey {
    metadata_key: [u8; 32],
    node_pmt_hash_key: [u8; 32],
    user_pmt_hash_key: [u8; 32],
}

impl ExpandedKey {
    /// The key that encrypts the metadata block.
    pub closed spec fn metadata_key(&self) -> Seq<u8> {
        self.metadata_key@
    }

    /// The key that authenticates payment hashes this node derived.
    pub closed spec fn node_key(&self) -> Seq<u8> {
        self.node_pmt_hash_key@
    }

    /// The key that authenticates payment hashes the user supplied.
    pub closed spec fn user_key(&self) -> Seq<u8> {
        self.user_pmt_hash_key@
    }

    /// The three keys, in the order of the expansion.
    pub open spec fn expanded_from(&self, key_material: Seq<u8>) -> bool {
        &&& self.metadata_key() == hkdf_t1(expansion_salt(), key_material)
        &&& self.node_key() == hkdf_t2(expansion_salt(), key_material)
        &&& self.user_key() == hkdf_t3(expansion_salt(), key_material)
    }

    /// Expands the key material into the three keys with one HKDF expansion.
    pub fn new(key_material: &[u8; 32]) -> (r: ExpandedKey)
        ensures
            r.expanded_from(key_material@),
    {
        let salt: [u8; 33] = [
            0x4c, 0x44, 0x4b, 0x20, 0x49, 0x6e, 0x62, 0x6f, 0x75, 0x6e, 0x64, 0x20, 0x50, 0x61,
            0x79, 0x6d, 0x65, 0x6e, 0x74, 0x20, 0x4b, 0x65, 0x79, 0x20, 0x45, 0x78, 0x70, 0x61,
            0x6e, 0x73, 0x69, 0x6f, 0x6e,
        ];
        assert(salt@ =~= expansion_salt());
        let prk = hmac_sha256(&salt, key_material);
        let one: [u8; 1] = [1u8];
        let t1 = hmac_sha256(&prk, &one);
        let mut m2: Vec<u8> = Vec::new();
        m2.extend_from_slice(&t1);
        m2.push(2u8);
        let t2 = hmac_sha256(&prk, m2.as_slice());
        let mut m3: Vec<u8> = Vec::new();
        m3.extend_from_slice(&t2);
        m3.push(3u8);
        let t3 = hmac_sha256(&prk, m3.as_slice());
        proof {
            assert(one@ =~= seq![1u8]);
            assert(m2@ =~= t1@ + seq![2u8]);
            assert(m3@ =~= t2@ + seq![3u8]);
        }
        ExpandedKey { metadata_key: t1, node_pmt_hash_key: t2, user_pmt_hash_key: t3 }
    }
}

/// How the payment hash of an inbound payment was chosen.
#[derive(Debug, Clone, Copy, PartialEq, Eq, Structural)]
pub enum Method {
    /// This node derived the preimage, and from it the hash.
    NodePaymentHash,
    /// The user supplied the hash.
    UserPaymentHash,
}

/// The type tag of a method.
pub open spec fn tag_of_method(m: Method) -> u8 {
    match m {
        Method::NodePaymentHash => 0u8,
        Method::UserPaymentHash => 1u8,
    }
}

impl Method {
    /// The method of a type tag, or the tag itself where it is not known.
    pub fn from_bits(bits: u8) -> (r: Result<Method, u8>)
        ensures
            bits == 0 ==> r == Ok::<Method, u8>(Method::NodePaymentHash),
            bits == 1 ==> r == Ok::<Method, u8>(Method::UserPaymentHash),
            bits > 1 ==> r == Err::<Method, u8>(bits),
    {
        if bits == NODE_PAYMENT_HASH_TAG {
            Ok(Method::NodePaymentHash)
        } else if bits == USER_PAYMENT_HASH_TAG {
            Ok(Method::UserPaymentHash)
        } else {
            Err(bits)
        }
    }
}

/// The big-endian bytes of `x`.
pub(crate) fn be64_bytes(x: u64) -> (r: [u8; 8])
    ensures
        r@ == be64(x),
{
    let r: [u8; 8] = [
        (x >> 56u64) as u8,
        (x >> 48u64) as u8,
        (x >> 40u64) as u8,
        (x >> 32u64) as u8,
        (x >> 24u64) as u8,
        (x >> 16u64) as u8,
        (x >> 8u64) as u8,
        x as u8,
    ];
    assert(r@ =~= be64(x));
    r
}

/// The value of eight big-endian bytes starting at `off`.
fn be_u64_at(s: &[u8; 16], off: usize) -> (r: u64)
    requires
        off + 8 <= 16,
    ensures
        r == be_u64(s@.subrange(off as int, off + 8)),
{
    (s[off] as u64) << 56u64 | (s[off + 1] as u64) << 48u64 | (s[off + 2] as u64) << 40u64 | (
    s[off + 3] as u64) << 32u64 | (s[off + 4] as u64) << 24u64 | (s[off + 5] as u64) << 16u64 | (
    s[off + 6] as u64) << 8u64 | (s[off + 7] as u64)
}

/// Builds the metadata block, or fails where the minimum amount exceeds the bitcoin supply.
pub fn construct_metadata_bytes(
    min_value_msat: Option<u64>,
    payment_type: Method,
    invoice_expiry_delta_secs: u32,
    highest_seen_timestamp: u64,
) -> (r: Result<[u8; 16], ()>)
    requires
        highest_seen_timestamp + invoice_expiry_delta_secs + 7200 <= u64::MAX,
    ensures
        r is Err <==> (min_value_msat matches Some(a) && a > MAX_VALUE_MSAT),
        r matches Ok(m) ==> m@ == metadata_bytes(
            min_value_msat,
            tag_of_method(payment_type),
            invoice_expiry_delta_secs,
            highest_seen_timestamp,
        ),
{
    if let Some(a) = min_value_msat {
        if a > MAX_VALUE_MSAT {
            return Err(());
        }
    }
    let amt: u64 = match min_value_msat {
        Some(a) => a,
        None => 0,
    };
    let tag: u8 = match payment_type {
        Method::NodePaymentHash => NODE_PAYMENT_HASH_TAG,
        Method::UserPaymentHash => USER_PAYMENT_HASH_TAG,
    };
    let amt_bytes = be64_bytes(amt);
    let expiry_bytes = be64_bytes(
        highest_seen_timestamp + invoice_expiry_delta_secs as u64 + EXPIRY_MARGIN_SECS,
    );
    let mut m: [u8; 16] = [0u8; 16];
    let mut i: usize = 0;
    while i < 8
        invariant
            i <= 8,
            forall|j: int| 0 <= j < i ==> m@[j] == amt_bytes@[j],
            forall|j: int| 0 <= j < i ==> m@[8 + j] == expiry_bytes@[j],
        decreases 8 - i,
    {
        m[i] = amt_bytes[i];
        m[8 + i] = expiry_bytes[i];
        i = i + 1;
    }
    m[0] = amt_bytes[0] | (tag << 5u8);
    proof {
        let spec_m = metadata_bytes(
            min_value_msat,
            tag_of_method(payment_type),
            invoice_expiry_delta_secs,
            highest_seen_timestamp,
        );
        assert forall|j: int| 0 <= j < 16 implies m@[j] == spec_m[j] by {
            if j >= 8 {
                assert(m@[8 + (j - 8)] == expiry_bytes@[j - 8]);
            }
        }
        assert(m@ =~= spec_m);
    }
    Ok(m)
}

/// Packs the iv and the encrypted metadata into a payment secret.
fn construct_payment_secret(iv_bytes: &[u8; 16], metadata_bytes: &[u8; 16], metadata_key: &[u8; 32]) -> (r: PaymentSecret)
    ensures
        r.0@ == secret_bytes(iv_bytes@, metadata_bytes@, metadata_key@),
{
    let block = chacha20_block(metadata_key, iv_bytes);
    let mut out: [u8; 32] = [0u8; 32];
    let mut i: usize = 0;
    while i < IV_LEN
        invariant
            i <= 16,
            block@ == chacha20_block_of(metadata_key@, iv_bytes@),
            forall|j: int| 0 <= j < i ==> out@[j] == iv_bytes@[j],
            forall|j: int| 0 <= j < i ==> out@[16 + j] == block@[j] ^ metadata_bytes@[j],
        decreases 16 - i,
    {
        out[i] = iv_bytes[i];
        out[IV_LEN + i] = block[i] ^ metadata_bytes[i];
        i = i + 1;
    }
    proof {
        let spec_s = secret_bytes(iv_bytes@, metadata_bytes@, metadata_key@);
        assert forall|j: int| 0 <= j < 32 implies out@[j] == spec_s[j] by {
            if j >= 16 {
                assert(out@[16 + (j - 16)] == block@[j - 16] ^ metadata_bytes@[j - 16]);
            }
        }
        assert(out@ =~= spec_s);
    }
    PaymentSecret(out)
}

/// Splits a payment secret into its iv and its decrypted metadata block.
fn decrypt_metadata(payment_secret: &PaymentSecret, keys: &ExpandedKey) -> (r: ([u8; 16], [u8; 16]))
    ensures
        r.0@ == iv_of(payment_secret.0@),
        r.1@ == decrypted_metadata(payment_secret.0@, keys.metadata_key()),
{
    let mut iv: [u8; 16] = [0u8; 16];
    let mut i: usize = 0;
    while i < IV_LEN
        invariant
            i <= 16,
            forall|j: int| 0 <= j < i ==> iv@[j] == payment_secret.0@[j],
        decreases 16 - i,
    {
        iv[i] = payment_secret.0[i];
        i = i + 1;
    }
    assert(iv@ =~= iv_of(payment_secret.0@));
    let block = chacha20_block(&keys.metadata_key, &iv);
    let mut metadata: [u8; 16] = [0u8; 16];
    let mut k: usize = 0;
    while k < IV_LEN
        invariant
            k <= 16,
            forall|j: int| 0 <= j < k ==> metadata@[j] == block@[j] ^ payment_secret.0@[16 + j],
        decreases 16 - k,
    {
        metadata[k] = block[k] ^ payment_secret.0[IV_LEN + k];
        k = k + 1;
    }
    assert(metadata@ =~= decrypted_metadata(payment_secret.0@, keys.metadata_key()));
    (iv, metadata)
}

/// The concatenation of two 16-byte blocks.
fn concat16(a: &[u8; 16], b: &[u8]) -> (r: Vec<u8>)
    ensures
        r@ == a@ + b@,
{
    let mut v: Vec<u8> = Vec::new();
    v.extend_from_slice(a);
    v.extend_from_slice(b);
    v
}

/// Re-derives the preimage of a payment whose hash this node derived, and checks it against
/// `payment_hash`; on a mismatch returns the preimage that did not match.
fn derive_node_payment_preimage(
    payment_hash: &PaymentHash,
    iv_bytes: &[u8; 16],
    metadata_bytes: &[u8; 16],
    keys: &ExpandedKey,
) -> (r: Result<PaymentPreimage, [u8; 32]>)
    ensures
        ({
            let pre = node_preimage(keys.node_key(), iv_bytes@, metadata_bytes@);
            match r {
                Ok(p) => p.0@ == pre && payment_hash.0@ == sha256_of(pre),
                Err(bad) => bad@ == pre && payment_hash.0@ != sha256_of(pre),
            }
        }),
{
    let msg = concat16(iv_bytes, metadata_bytes);
    let preimage = hmac_sha256(&keys.node_pmt_hash_key, msg.as_slice());
    let hash = sha256(&preimage);
    if !fixed_time_eq(&payment_hash.0, &hash) {
        return Err(preimage);
    }
    Ok(PaymentPreimage(preimage))
}

/// Creates the hash and secret of an inbound payment whose preimage this node derives, from
/// 32 fresh random bytes (the first 16 become the iv).
pub fn create(
    keys: &ExpandedKey,
    min_value_msat: Option<u64>,
    invoice_expiry_delta_secs: u32,
    random_bytes: &[u8; 32],
    highest_seen_timestamp: u64,
) -> (r: Result<(PaymentHash, PaymentSecret), ()>)
    requires
        highest_seen_timestamp + invoice_expiry_delta_secs + 7200 <= u64::MAX,
    ensures
        r is Err <==> (min_value_msat matches Some(a) && a > MAX_VALUE_MSAT),
        r matches Ok((hash, secret)) ==> ({
            let iv = random_bytes@.subrange(0, 16);
            let md = metadata_bytes(
                min_value_msat,
                NODE_PAYMENT_HASH_TAG,
                invoice_expiry_delta_secs,
                highest_seen_timestamp,
            );
            &&& hash.0@ == sha256_of(node_preimage(keys.node_key(), iv, md))
            &&& secret.0@ == secret_bytes(iv, md, keys.metadata_key())
        }),
{
    let metadata = construct_metadata_bytes(
        min_value_msat,
        Method::NodePaymentHash,
        invoice_expiry_delta_secs,
        highest_seen_timestamp,
    )?;
    let mut iv: [u8; 16] = [0u8; 16];
    let mut i: usize = 0;
    while i < IV_LEN
        invariant
            i <= 16,
            forall|j: int| 0 <= j < i ==> iv@[j] == random_bytes@[j],
        decreases 16 - i,
    {
        iv[i] = random_bytes[i];
        i = i + 1;
    }
    assert(iv@ =~= random_bytes@.subrange(0, 16));
    let msg = concat16(&iv, &metadata);
    let preimage = hmac_sha256(&keys.node_pmt_hash_key, msg.as_slice());
    let hash = sha256(&preimage);
    let secret = construct_payment_secret(&iv, &metadata, &keys.metadata_key);
    Ok((PaymentHash(hash), secret))
}

/// Creates the secret of an inbound payment whose hash the user supplied; the iv is bound to
/// that hash and the metadata.
pub fn create_from_hash(
    keys: &ExpandedKey,
    min_value_msat: Option<u64>,
    payment_hash: PaymentHash,
    invoice_expiry_delta_secs: u32,
    highest_seen_timestamp: u64,
) -> (r: Result<PaymentSecret, ()>)
    requires
        highest_seen_timestamp + invoice_expiry_delta_secs + 7200 <= u64::MAX,
    ensures
        r is Err <==> (min_value_msat matches Some(a) && a > MAX_VALUE_MSAT),
        r matches Ok(secret) ==> ({
            let md = metadata_bytes(
                min_value_msat,
                USER_PAYMENT_HASH_TAG,
                invoice_expiry_delta_secs,
                highest_seen_timestamp,
            );
            secret.0@ == secret_bytes(
                user_iv(keys.user_key(), md, payment_hash.0@),
                md,
                keys.metadata_key(),
            )
        }),
{
    let metadata = construct_metadata_bytes(
        min_value_msat,
        Method::UserPaymentHash,
        invoice_expiry_delta_secs,
        highest_seen_timestamp,
    )?;
    let msg = concat16(&metadata, &payment_hash.0);
    let tag = hmac_sha256(&keys.user_pmt_hash_key, msg.as_slice());
    let mut iv: [u8; 16] = [0u8; 16];
    let mut i: usize = 0;
    while i < IV_LEN
        invariant
            i <= 16,
            forall|j: int| 0 <= j < i ==> iv@[j] == tag@[j],
        decreases 16 - i,
    {
        iv[i] = tag[i];
        i = i + 1;
    }
    assert(iv@ =~= tag@.subrange(0, 16));
    Ok(construct_payment_secret(&iv, &metadata, &keys.metadata_key))
}

/// Whether the payment secret authenticates `payment_hash`: by its type tag, the user-supplied
/// hash is bound to the iv, or the derived preimage hashes to the payment hash.
pub open spec fn authenticated(payment_hash: Seq<u8>, secret: Seq<u8>, keys: ExpandedKey) -> bool {
    let iv = iv_of(secret);
    let md = decrypted_metadata(secret, keys.metadata_key());
    let tag = tag_of(md);
    if tag == USER_PAYMENT_HASH_TAG {
        iv == user_iv(keys.user_key(), md, payment_hash)
    } else if tag == NODE_PAYMENT_HASH_TAG {
        payment_hash == sha256_of(node_preimage(keys.node_key(), iv, md))
    } else {
        false
    }
}

/// Whether an inbound payment is accepted: it is authenticated, pays at least the minimum
/// amount, and has not expired.
pub open spec fn accepted(
    payment_hash: Seq<u8>,
    secret: Seq<u8>,
    total_msat: u64,
    highest_seen_timestamp: u64,
    keys: ExpandedKey,
) -> bool {
    let md = decrypted_metadata(secret, keys.metadata_key());
    &&& authenticated(payment_hash, secret, keys)
    &&& total_msat >= min_amount_of(md)
    &&& expiry_of(md) >= highest_seen_timestamp
}

/// The part of the final hop's onion data that inbound-payment checks read.
#[derive(Debug, Clone, Copy)]
pub struct FinalOnionHopData {
    /// The payment secret the payer sent.
    pub payment_secret: PaymentSecret,
    /// The total amount of the payment, over all its parts.
    pub total_msat: u64,
}

/// Checks an inbound payment against its secret. The authentication is checked before the
/// amount and the expiry. On success returns the preimage where this node derived it, and
/// `None` where the user supplied the hash.
pub fn verify(
    payment_hash: PaymentHash,
    payment_data: FinalOnionHopData,
    highest_seen_timestamp: u64,
    keys: &ExpandedKey,
) -> (r: Result<Option<PaymentPreimage>, ()>)
    ensures
        r is Ok <==> accepted(
            payment_hash.0@,
            payment_data.payment_secret.0@,
            payment_data.total_msat,
            highest_seen_timestamp,
            *keys,
        ),
        r matches Ok(p) ==> ({
            let secret = payment_data.payment_secret.0@;
            let md = decrypted_metadata(secret, keys.metadata_key());
            &&& (p is Some <==> tag_of(md) == NODE_PAYMENT_HASH_TAG)
            &&& p matches Some(pre) ==> pre.0@ == node_preimage(keys.node_key(), iv_of(secret), md)
        }),
{
    let (iv_bytes, metadata_bytes) = decrypt_metadata(&payment_data.payment_secret, keys);
    let tag: u8 = (metadata_bytes[0] & 0b1110_0000u8) >> 5u8;
    let payment_type_res = Method::from_bits(tag);
    let mut amt_bytes: [u8; 16] = metadata_bytes;
    amt_bytes[0] = metadata_bytes[0] & 0b0001_1111u8;
    let min_amt_msat = be_u64_at(&amt_bytes, 0);
    let expiry = be_u64_at(&metadata_bytes, 8);
    proof {
        assert(amt_bytes@.subrange(0, 8) =~= metadata_bytes@.subrange(0, 8).update(
            0,
            metadata_bytes@[0] & 0b0001_1111u8,
        ));
    }
    let mut payment_preimage: Option<PaymentPreimage> = None;
    match payment_type_res {
        Ok(Method::UserPaymentHash) => {
            let msg = concat16(&metadata_bytes, &payment_hash.0);
            let tag_bytes = hmac_sha256(&keys.user_pmt_hash_key, msg.as_slice());
            let mut expected: [u8; 16] = [0u8; 16];
            let mut i: usize = 0;
            while i < IV_LEN
                invariant
                    i <= 16,
                    forall|j: int| 0 <= j < i ==> expected@[j] == tag_bytes@[j],
                decreases 16 - i,
            {
                expected[i] = tag_bytes[i];
                i = i + 1;
            }
            assert(expected@ =~= tag_bytes@.subrange(0, 16));
            if !fixed_time_eq(&iv_bytes, &expected) {
                return Err(());
            }
        },
        Ok(Method::NodePaymentHash) => {
            match derive_node_payment_preimage(&payment_hash, &iv_bytes, &metadata_bytes, keys) {
                Ok(preimage) => payment_preimage = Some(preimage),
                Err(_) => return Err(()),
            }
        },
        Err(_) => {
            return Err(());
        },
    }
    if payment_data.total_msat < min_amt_msat {
        return Err(());
    }
    if expiry < highest_seen_timestamp {
        return Err(());
    }
    Ok(payment_preimage)
}

/// Why a preimage could not be re-derived for a payment.
#[derive(Debug, Clone, Copy, PartialEq, Eq, Structural)]
pub enum PreimageError {
    /// The derived preimage does not hash to the payment hash.
    HashMismatch,
    /// The payment's hash was supplied by the user, so this node never knew its preimage.
    UserPaymentHash,
    /// The payment secret holds an unknown type tag.
    UnknownPaymentType(u8),
}

/// Re-derives the preimage of a payment whose hash this node derived. Asking for one whose
/// hash the user supplied is a misuse, reported as such.
pub fn get_payment_preimage(
    payment_hash: PaymentHash,
    payment_secret: PaymentSecret,
    keys: &ExpandedKey,
) -> (r: Result<PaymentPreimage, PreimageError>)
    ensures
        ({
            let secret = payment_secret.0@;
            let md = decrypted_metadata(secret, keys.metadata_key());
            let pre = node_preimage(keys.node_key(), iv_of(secret), md);
            let tag = tag_of(md);
            if tag == NODE_PAYMENT_HASH_TAG {
                if payment_hash.0@ == sha256_of(pre) {
                    r matches Ok(p) && p.0@ == pre
                } else {
                    r == Err::<PaymentPreimage, PreimageError>(PreimageError::HashMismatch)
                }
            } else if tag == USER_PAYMENT_HASH_TAG {
                r == Err::<PaymentPreimage, PreimageError>(PreimageError::UserPaymentHash)
            } else {
                r == Err::<PaymentPreimage, PreimageError>(PreimageError::UnknownPaymentType(tag))
            }
        }),
{
    let (iv_bytes, metadata_bytes) = decrypt_metadata(&payment_secret, keys);
    let tag: u8 = (metadata_bytes[0] & 0b1110_0000u8) >> 5u8;
    match Method::from_bits(tag) {
        Ok(Method::NodePaymentHash) => {
            match derive_node_payment_preimage(&payment_hash, &iv_bytes, &metadata_bytes, keys) {
                Ok(p) => Ok(p),
                Err(_) => Err(PreimageError::HashMismatch),
            }
        },
        Ok(Method::UserPaymentHash) => Err(PreimageError::UserPaymentHash),
        Err(other) => Err(PreimageError::UnknownPaymentType(other)),
    }
}

/// Reading back the big-endian bytes of a value gives the value; where the value is below
/// 2^61, clearing the top three bits of the first byte changes nothing.
pub(crate) proof fn lemma_be64_round_trip(x: u64)
    ensures
        be_u64(be64(x)) == x,
        x < 0x2000_0000_0000_0000u64 ==> be_u64(be64(x).update(0, be64(x)[0] & 0b0001_1111u8))
            == x,
        x < 0x2000_0000_0000_0000u64 ==> be64(x)[0] & 0b1110_0000u8 == 0,
{
    let b = be64(x);
    let (b0, b1, b2, b3, b4, b5, b6, b7) = (b[0], b[1], b[2], b[3], b[4], b[5], b[6], b[7]);
    assert((b0 as u64) << 56u64 | (b1 as u64) << 48u64 | (b2 as u64) << 40u64 | (b3 as u64)
        << 32u64 | (b4 as u64) << 24u64 | (b5 as u64) << 16u64 | (b6 as u64) << 8u64 | (b7 as u64)
        == x) by (bit_vector)
        requires
            b0 == (x >> 56u64) as u8,
            b1 == (x >> 48u64) as u8,
            b2 == (x >> 40u64) as u8,
            b3 == (x >> 32u64) as u8,
            b4 == (x >> 24u64) as u8,
            b5 == (x >> 16u64) as u8,
            b6 == (x >> 8u64) as u8,
            b7 == x as u8,
    ;
    if x < 0x2000_0000_0000_0000u64 {
        assert(b0 & 0b0001_1111u8 == b0 && b0 & 0b1110_0000u8 == 0) by (bit_vector)
            requires
                b0 == (x >> 56u64) as u8,
                x < 0x2000_0000_0000_0000u64,
        ;
        assert(b.update(0, b0 & 0b0001_1111u8) =~= b);
    }
}

/// XORing twice with the same keystream restores the block.
proof fn lemma_xor16_involution(ks: Seq<u8>, m: Seq<u8>)
    requires
        m.len() == 16,
    ensures
        xor16(ks, xor16(ks, m)) == m,
{
    assert forall|i: int| 0 <= i < 16 implies #[trigger] xor16(ks, xor16(ks, m))[i] == m[i] by {
        let a = ks[i];
        let b = m[i];
        assert(a ^ (a ^ b) == b) by (bit_vector);
    }
    assert(xor16(ks, xor16(ks, m)) =~= m);
}

/// A payment created by `create` is accepted by `verify` exactly when the amount paid reaches
/// the embedded minimum and the embedded expiry has not passed; the preimage handed back is
/// the one whose hash is the payment hash.
pub proof fn lemma_create_then_verify(
    keys: ExpandedKey,
    min_value_msat: Option<u64>,
    invoice_expiry_delta_secs: u32,
    random_bytes: Seq<u8>,
    created_at: u64,
    total_msat: u64,
    highest_seen_timestamp: u64,
)
    requires
        random_bytes.len() == 32,
        created_at + invoice_expiry_delta_secs + 7200 <= u64::MAX,
        min_value_msat matches Some(a) ==> a <= MAX_VALUE_MSAT,
    ensures
        ({
            let iv = random_bytes.subrange(0, 16);
            let md = metadata_bytes(
                min_value_msat,
                NODE_PAYMENT_HASH_TAG,
                invoice_expiry_delta_secs,
                created_at,
            );
            let preimage = node_preimage(keys.node_key(), iv, md);
            let hash = sha256_of(preimage);
            let secret = secret_bytes(iv, md, keys.metadata_key());
            let min = match min_value_msat {
                Some(a) => a,
                None => 0u64,
            };
            &&& accepted(hash, secret, total_msat, highest_seen_timestamp, keys) <==> (total_msat
                >= min && created_at + invoice_expiry_delta_secs + 7200 >= highest_seen_timestamp)
            &&& tag_of(decrypted_metadata(secret, keys.metadata_key())) == NODE_PAYMENT_HASH_TAG
            &&& node_preimage(
                keys.node_key(),
                iv_of(secret),
                decrypted_metadata(secret, keys.metadata_key()),
            ) == preimage
        }),
{
    let iv = random_bytes.subrange(0, 16);
    let md = metadata_bytes(min_value_msat, NODE_PAYMENT_HASH_TAG, invoice_expiry_delta_secs, created_at);
    let secret = secret_bytes(iv, md, keys.metadata_key());
    let ks = chacha20_block_of(keys.metadata_key(), iv);
    let amt = match min_value_msat {
        Some(a) => a,
        None => 0u64,
    };
    let expiry = (created_at + invoice_expiry_delta_secs + 7200) as u64;
    assert(iv_of(secret) =~= iv);
    assert(secret.subrange(16, 32) =~= xor16(ks, md));
    lemma_xor16_involution(ks, md);
    assert(decrypted_metadata(secret, keys.metadata_key()) == md);
    lemma_be64_round_trip(amt);
    lemma_be64_round_trip(expiry);
    let ab = be64(amt);
    assert(ab[0] | (0u8 << 5u8) == ab[0]) by (bit_vector);
    assert(md.subrange(0, 8) =~= ab);
    assert(md.subrange(8, 16) =~= be64(expiry));
    assert(md[0] == ab[0]);
    assert(tag_of(md) == 0) by {
        let b0 = ab[0];
        assert(b0 & 0b1110_0000u8 == 0 ==> (b0 & 0b1110_0000u8) >> 5u8 == 0) by (bit_vector);
    }
    assert(md.subrange(0, 8).update(0, md[0] & 0b0001_1111u8) =~= ab.update(
        0,
        ab[0] & 0b0001_1111u8,
    ));
}

} // verus!
