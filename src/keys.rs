//! Per-commitment key derivation: the keys of one commitment transaction are the channel's
//! static basepoints tweaked by a hash of that commitment's per-commitment point.

use crate::crypto::{
    point_add_tweak, point_combine, point_mul_tweak, point_of, public_key_of,
    scalar_add, scalar_mul, secret_add, secret_mul, sha256, sha256_of, tweak_add_ok, tweak_mul_ok,
    valid_secret,
};
use vstd::prelude::*;

verus! {

/// A curve operation failed: a tweak or a result was not a valid key.
#[derive(Debug, Clone, Copy, PartialEq, Eq, Structural)]
pub enum SecpError {
    /// A tweak fell outside the group or a result was zero or the point at infinity.
    InvalidTweak,
}

/// The per-commitment secret after the top `i` of the 48 index bits have been applied: for
/// each set bit, flip that bit of the running value and hash it.
pub open spec fn commitment_secret_steps(seed: Seq<u8>, idx: u64, i: nat) -> Seq<u8>
    decreases i,
{
    if i == 0 {
        seed
    } else {
        let prev = commitment_secret_steps(seed, idx, (i - 1) as nat);
        let bitpos = 47 - (i - 1);
        if idx & (1u64 << bitpos as u64) == 1u64 << bitpos as u64 {
            sha256_of(prev.update(bitpos / 8, prev[bitpos / 8] ^ (1u8 << (bitpos % 8) as u8)))
        } else {
            prev
        }
    }
}

/// The per-commitment secret of index `idx` derived from `seed`.
pub open spec fn commitment_secret(seed: Seq<u8>, idx: u64) -> Seq<u8> {
    commitment_secret_steps(seed, idx, 48)
}

/// Builds the per-commitment secret of commitment index `idx` from the channel's commitment
/// seed (only the low 48 bits of `idx` count).
pub fn build_commitment_secret(commitment_seed: &[u8; 32], idx: u64) -> (r: [u8; 32])
    ensures
        r@ == commitment_secret(commitment_seed@, idx),
{
    let mut res: [u8; 32] = *commitment_seed;
    let mut i: u64 = 0;
    while i < 48
        invariant
            i <= 48,
            res@ == commitment_secret_steps(commitment_seed@, idx, i as nat),
            res@.len() == 32,
        decreases 48 - i,
    {
        let bitpos: u64 = 47 - i;
        if idx & (1u64 << bitpos) == 1u64 << bitpos {
            let byte_index: usize = (bitpos / 8) as usize;
            let flipped: u8 = res[byte_index] ^ (1u8 << ((bitpos % 8) as u8));
            res[byte_index] = flipped;
            res = sha256(&res);
        }
        i = i + 1;
    }
    res
}

/// The per-commitment private key derived from `base_secret`:
/// `base_secret + SHA256(per_commitment_point || base_point)`.
pub open spec fn derived_private_key(per_commitment_point: Seq<u8>, base_secret: Seq<u8>) -> Seq<
    u8,
> {
    scalar_add(base_secret, sha256_of(per_commitment_point + point_of(base_secret)))
}

/// `key` is the point `base_point + SHA256(per_commitment_point || base_point) * G`, stated
/// through the secret of `base_point`.
pub open spec fn is_derived_public_key(
    per_commitment_point: Seq<u8>,
    base_point: Seq<u8>,
    key: Seq<u8>,
) -> bool {
    forall|k: Seq<u8>|
        valid_secret(k) && point_of(k) == base_point ==> key == #[trigger] point_of(
            scalar_add(k, sha256_of(per_commitment_point + base_point)),
        )
}

/// The revocation private key:
/// `revocation_base_secret * SHA256(revocation_basepoint || per_commitment_point)
///  + per_commitment_secret * SHA256(per_commitment_point || revocation_basepoint)`.
pub open spec fn derived_revocation_private_key(
    per_commitment_secret: Seq<u8>,
    revocation_base_secret: Seq<u8>,
) -> Seq<u8> {
    let rb = point_of(revocation_base_secret);
    let pc = point_of(per_commitment_secret);
    scalar_add(
        scalar_mul(revocation_base_secret, sha256_of(rb + pc)),
        scalar_mul(per_commitment_secret, sha256_of(pc + rb)),
    )
}

/// `key` is the revocation public key of the given points, stated through their secrets.
pub open spec fn is_derived_revocation_public_key(
    per_commitment_point: Seq<u8>,
    revocation_base_point: Seq<u8>,
    key: Seq<u8>,
) -> bool {
    forall|pcs: Seq<u8>, rbs: Seq<u8>|
        valid_secret(pcs) && valid_secret(rbs) && point_of(pcs) == per_commitment_point
            && point_of(rbs) == revocation_base_point ==> key == #[trigger] point_of(
            derived_revocation_private_key(pcs, rbs),
        )
}

/// Derivation from the base secret `k` succeeds: the tweak
/// `SHA256(per_commitment_point || base_point)` is below the group order and `k` plus it is not
/// zero. `base_point` is the point of `k`.
pub open spec fn public_key_derives(per_commitment_point: Seq<u8>, base_point: Seq<u8>, k: Seq<u8>) -> bool {
    tweak_add_ok(k, sha256_of(per_commitment_point + base_point))
}

/// Derivation of the private key from `base_secret` succeeds.
pub open spec fn private_key_derives(per_commitment_point: Seq<u8>, base_secret: Seq<u8>) -> bool {
    public_key_derives(per_commitment_point, point_of(base_secret), base_secret)
}

/// Derivation of the revocation key from the secrets behind the per-commitment point and the
/// revocation basepoint succeeds: both hashes are below the group order and both products and
/// their sum are valid keys.
pub open spec fn revocation_key_derives(per_commitment_secret: Seq<u8>, revocation_base_secret: Seq<u8>) -> bool {
    let rb = point_of(revocation_base_secret);
    let pc = point_of(per_commitment_secret);
    &&& tweak_mul_ok(revocation_base_secret, sha256_of(rb + pc))
    &&& tweak_mul_ok(per_commitment_secret, sha256_of(pc + rb))
    &&& valid_secret(derived_revocation_private_key(per_commitment_secret, revocation_base_secret))
}

/// Derives a per-commitment private key (an HTLC key or a delayed-payment key) from the base
/// secret and the per-commitment point. Fails exactly where the tweak is out of range or the
/// sum is zero.
pub fn derive_private_key(per_commitment_point: &[u8; 33], base_secret: &[u8; 32]) -> (r: Result<
    [u8; 32],
    SecpError,
>)
    requires
        valid_secret(base_secret@),
    ensures
        r is Ok <==> private_key_derives(per_commitment_point@, base_secret@),
        r matches Ok(k) ==> k@ == derived_private_key(per_commitment_point@, base_secret@)
            && valid_secret(k@),
{
    let base_point = public_key_of(base_secret);
    let mut data: Vec<u8> = Vec::new();
    data.extend_from_slice(per_commitment_point);
    data.extend_from_slice(&base_point);
    assert(data@ =~= per_commitment_point@ + base_point@);
    let tweak = sha256(data.as_slice());
    match secret_add(base_secret, &tweak) {
        Some(k) => Ok(k),
        None => Err(SecpError::InvalidTweak),
    }
}

/// Derives a per-commitment public key from the base point and the per-commitment point: the
/// public counterpart of `derive_private_key`, failing on the same inputs.
pub fn derive_public_key(per_commitment_point: &[u8; 33], base_point: &[u8; 33]) -> (r: Result<
    [u8; 33],
    SecpError,
>)
    ensures
        forall|k: Seq<u8>|
            valid_secret(k) && point_of(k) == base_point@ ==> (r is Ok <==> #[trigger] public_key_derives(
                per_commitment_point@,
                base_point@,
                k,
            )),
        r matches Ok(p) ==> is_derived_public_key(per_commitment_point@, base_point@, p@),
{
    let mut data: Vec<u8> = Vec::new();
    data.extend_from_slice(per_commitment_point);
    data.extend_from_slice(base_point);
    assert(data@ =~= per_commitment_point@ + base_point@);
    let tweak = sha256(data.as_slice());
    match point_add_tweak(base_point, &tweak) {
        Some(p) => Ok(p),
        None => Err(SecpError::InvalidTweak),
    }
}

/// Derives the revocation private key from the revealed per-commitment secret and the
/// revocation base secret. Fails exactly where a hash is out of range or a product or the sum
/// is zero.
pub fn derive_private_revocation_key(
    per_commitment_secret: &[u8; 32],
    revocation_base_secret: &[u8; 32],
) -> (r: Result<[u8; 32], SecpError>)
    requires
        valid_secret(per_commitment_secret@),
        valid_secret(revocation_base_secret@),
    ensures
        r is Ok <==> revocation_key_derives(per_commitment_secret@, revocation_base_secret@),
        r matches Ok(k) ==> k@ == derived_revocation_private_key(
            per_commitment_secret@,
            revocation_base_secret@,
        ) && valid_secret(k@),
{
    let revocation_base_point = public_key_of(revocation_base_secret);
    let per_commitment_point = public_key_of(per_commitment_secret);
    let mut rev_then_commit: Vec<u8> = Vec::new();
    rev_then_commit.extend_from_slice(&revocation_base_point);
    rev_then_commit.extend_from_slice(&per_commitment_point);
    let mut commit_then_rev: Vec<u8> = Vec::new();
    commit_then_rev.extend_from_slice(&per_commitment_point);
    commit_then_rev.extend_from_slice(&revocation_base_point);
    assert(rev_then_commit@ =~= revocation_base_point@ + per_commitment_point@);
    assert(commit_then_rev@ =~= per_commitment_point@ + revocation_base_point@);
    let rev_hash = sha256(rev_then_commit.as_slice());
    let commit_hash = sha256(commit_then_rev.as_slice());
    let part_a = match secret_mul(revocation_base_secret, &rev_hash) {
        Some(k) => k,
        None => return Err(SecpError::InvalidTweak),
    };
    let part_b = match secret_mul(per_commitment_secret, &commit_hash) {
        Some(k) => k,
        None => return Err(SecpError::InvalidTweak),
    };
    match secret_add(&part_a, &part_b) {
        Some(k) => Ok(k),
        None => Err(SecpError::InvalidTweak),
    }
}

/// Derives the revocation public key from the per-commitment point and the revocation base
/// point: the public counterpart of `derive_private_revocation_key`, failing on the same
/// inputs.
pub fn derive_public_revocation_key(
    per_commitment_point: &[u8; 33],
    revocation_base_point: &[u8; 33],
) -> (r: Result<[u8; 33], SecpError>)
    ensures
        forall|pcs: Seq<u8>, rbs: Seq<u8>|
            valid_secret(pcs) && valid_secret(rbs) && point_of(pcs) == per_commitment_point@
                && point_of(rbs) == revocation_base_point@ ==> (r is Ok
                <==> #[trigger] revocation_key_derives(pcs, rbs)),
        r matches Ok(p) ==> is_derived_revocation_public_key(
            per_commitment_point@,
            revocation_base_point@,
            p@,
        ),
{
    let mut rev_then_commit: Vec<u8> = Vec::new();
    rev_then_commit.extend_from_slice(revocation_base_point);
    rev_then_commit.extend_from_slice(per_commitment_point);
    let mut commit_then_rev: Vec<u8> = Vec::new();
    commit_then_rev.extend_from_slice(per_commitment_point);
    commit_then_rev.extend_from_slice(revocation_base_point);
    assert(rev_then_commit@ =~= revocation_base_point@ + per_commitment_point@);
    assert(commit_then_rev@ =~= per_commitment_point@ + revocation_base_point@);
    let rev_hash = sha256(rev_then_commit.as_slice());
    let commit_hash = sha256(commit_then_rev.as_slice());
    let part_a = match point_mul_tweak(revocation_base_point, &rev_hash) {
        Some(p) => p,
        None => {
            proof {
                assert forall|pcs: Seq<u8>, rbs: Seq<u8>|
                    valid_secret(pcs) && valid_secret(rbs) && point_of(pcs) == per_commitment_point@
                        && point_of(rbs) == revocation_base_point@ implies !#[trigger] revocation_key_derives(pcs, rbs) by {
                    assert(!tweak_mul_ok(rbs, rev_hash@));
                }
            }
            return Err(SecpError::InvalidTweak);
        },
    };
    let part_b = match point_mul_tweak(per_commitment_point, &commit_hash) {
        Some(p) => p,
        None => {
            proof {
                assert forall|pcs: Seq<u8>, rbs: Seq<u8>|
                    valid_secret(pcs) && valid_secret(rbs) && point_of(pcs) == per_commitment_point@
                        && point_of(rbs) == revocation_base_point@ implies !#[trigger] revocation_key_derives(pcs, rbs) by {
                    assert(!tweak_mul_ok(pcs, commit_hash@));
                }
            }
            return Err(SecpError::InvalidTweak);
        },
    };
    let r = point_combine(&part_a, &part_b);
    proof {
        assert forall|pcs: Seq<u8>, rbs: Seq<u8>|
            valid_secret(pcs) && valid_secret(rbs) && point_of(pcs) == per_commitment_point@
                && point_of(rbs) == revocation_base_point@ implies {
            &&& (r is Some <==> #[trigger] revocation_key_derives(pcs, rbs))
            &&& r matches Some(p) ==> p@ == point_of(derived_revocation_private_key(pcs, rbs))
        } by {
            assert(tweak_mul_ok(rbs, rev_hash@));
            assert(tweak_mul_ok(pcs, commit_hash@));
            let a = scalar_mul(rbs, rev_hash@);
            let b = scalar_mul(pcs, commit_hash@);
            assert(point_of(a) == part_a@);
            assert(point_of(b) == part_b@);
            assert(r is Some <==> valid_secret(scalar_add(a, b)));
            if r is Some {
                assert(r->Some_0@ == point_of(scalar_add(a, b)));
            }
        }
    }
    match r {
        Some(p) => {
            proof {
                assert forall|pcs: Seq<u8>, rbs: Seq<u8>|
                    valid_secret(pcs) && valid_secret(rbs) && point_of(pcs)
                        == per_commitment_point@ && point_of(rbs)
                        == revocation_base_point@ implies p@ == #[trigger] point_of(
                    derived_revocation_private_key(pcs, rbs),
                ) by {
                    assert(revocation_key_derives(pcs, rbs) ==> p@ == point_of(
                        derived_revocation_private_key(pcs, rbs),
                    ));
                }
            }
            Ok(p)
        },
        None => Err(SecpError::InvalidTweak),
    }
}

/// A per-commitment private key and the public key derived from its base point agree: one
/// derivation succeeds exactly when the other does, and the public key is then the point of
/// the private key.
pub proof fn lemma_private_public_derivation_agree(
    per_commitment_point: Seq<u8>,
    base_secret: Seq<u8>,
    key: Seq<u8>,
)
    requires
        valid_secret(base_secret),
    ensures
        private_key_derives(per_commitment_point, base_secret) == public_key_derives(
            per_commitment_point,
            point_of(base_secret),
            base_secret,
        ),
        is_derived_public_key(per_commitment_point, point_of(base_secret), key) ==> point_of(
            derived_private_key(per_commitment_point, base_secret),
        ) == key,
{
    if is_derived_public_key(per_commitment_point, point_of(base_secret), key) {
        assert(key == point_of(
            scalar_add(base_secret, sha256_of(per_commitment_point + point_of(base_secret))),
        ));
    }
}

/// Once the per-commitment secret of index `idx` is revealed, the revocation private key
/// derived from it and the revocation base secret is the secret of the revocation public key
/// that was predicted from the per-commitment point and the revocation basepoint. Both
/// derivations succeed on the same inputs, stated by `revocation_key_derives`.
pub proof fn lemma_revealed_secret_gives_revocation_key(
    commitment_seed: Seq<u8>,
    idx: u64,
    revocation_base_secret: Seq<u8>,
    key: Seq<u8>,
)
    requires
        valid_secret(commitment_secret(commitment_seed, idx)),
        valid_secret(revocation_base_secret),
        is_derived_revocation_public_key(
            point_of(commitment_secret(commitment_seed, idx)),
            point_of(revocation_base_secret),
            key,
        ),
    ensures
        point_of(
            derived_revocation_private_key(
                commitment_secret(commitment_seed, idx),
                revocation_base_secret,
            ),
        ) == key,
{
    let pcs = commitment_secret(commitment_seed, idx);
    assert(key == point_of(derived_revocation_private_key(pcs, revocation_base_secret)));
}

/// One party's public keys, which do not change over the life of a channel.
#[derive(Debug, Clone, Copy)]
pub struct ChannelPublicKeys {
    /// The key of the 2-of-2 funding output.
    pub funding_pubkey: [u8; 33],
    /// Base point of the revocation keys that the counterparty can later complete.
    pub revocation_basepoint: [u8; 33],
    /// The key that receives this party's balance on the counterparty's commitments.
    pub payment_point: [u8; 33],
    /// Base point of the delayed-payment keys.
    pub delayed_payment_basepoint: [u8; 33],
    /// Base point of the HTLC keys.
    pub htlc_basepoint: [u8; 33],
}

impl ChannelPublicKeys {
    /// The five static keys of one party.
    pub fn new(
        funding_pubkey_arg: [u8; 33],
        revocation_basepoint_arg: [u8; 33],
        payment_point_arg: [u8; 33],
        delayed_payment_basepoint_arg: [u8; 33],
        htlc_basepoint_arg: [u8; 33],
    ) -> (r: ChannelPublicKeys)
        ensures
            r.funding_pubkey == funding_pubkey_arg,
            r.revocation_basepoint == revocation_basepoint_arg,
            r.payment_point == payment_point_arg,
            r.delayed_payment_basepoint == delayed_payment_basepoint_arg,
            r.htlc_basepoint == htlc_basepoint_arg,
    {
        ChannelPublicKeys {
            funding_pubkey: funding_pubkey_arg,
            revocation_basepoint: revocation_basepoint_arg,
            payment_point: payment_point_arg,
            delayed_payment_basepoint: delayed_payment_basepoint_arg,
            htlc_basepoint: htlc_basepoint_arg,
        }
    }
}

/// The public keys of one commitment transaction, derived from the channel basepoints and
/// that commitment's per-commitment point. Party A owns the commitment transaction.
#[derive(Debug, Clone, Copy)]
pub struct TxCreationKeys {
    /// The per-commitment point the other keys were derived from.
    pub per_commitment_point: [u8; 33],
    /// The key that lets B punish A for broadcasting this commitment once it is revoked.
    pub revocation_key: [u8; 33],
    /// A's HTLC key.
    pub a_htlc_key: [u8; 33],
    /// B's HTLC key.
    pub b_htlc_key: [u8; 33],
    /// A's delayed payment key.
    pub a_delayed_payment_key: [u8; 33],
}

/// `keys` are the keys derived for `per_commitment_point` from the given basepoints.
pub open spec fn keys_derived_from(
    keys: TxCreationKeys,
    per_commitment_point: Seq<u8>,
    a_delayed_payment_base: Seq<u8>,
    a_htlc_base: Seq<u8>,
    b_revocation_base: Seq<u8>,
    b_htlc_base: Seq<u8>,
) -> bool {
    &&& keys.per_commitment_point@ == per_commitment_point
    &&& is_derived_revocation_public_key(
        per_commitment_point,
        b_revocation_base,
        keys.revocation_key@,
    )
    &&& is_derived_public_key(per_commitment_point, a_htlc_base, keys.a_htlc_key@)
    &&& is_derived_public_key(per_commitment_point, b_htlc_base, keys.b_htlc_key@)
    &&& is_derived_public_key(
        per_commitment_point,
        a_delayed_payment_base,
        keys.a_delayed_payment_key@,
    )
}

/// `pcs`, `rbs`, `ad`, `ah` and `bh` are valid secrets whose points are, in order, the
/// per-commitment point, the revocation base, and the delayed-payment and HTLC bases.
pub open spec fn secrets_behind(
    per_commitment_point: Seq<u8>,
    a_delayed_payment_base: Seq<u8>,
    a_htlc_base: Seq<u8>,
    b_revocation_base: Seq<u8>,
    b_htlc_base: Seq<u8>,
    pcs: Seq<u8>,
    rbs: Seq<u8>,
    ad: Seq<u8>,
    ah: Seq<u8>,
    bh: Seq<u8>,
) -> bool {
    &&& valid_secret(pcs) && point_of(pcs) == per_commitment_point
    &&& valid_secret(rbs) && point_of(rbs) == b_revocation_base
    &&& valid_secret(ad) && point_of(ad) == a_delayed_payment_base
    &&& valid_secret(ah) && point_of(ah) == a_htlc_base
    &&& valid_secret(bh) && point_of(bh) == b_htlc_base
}

/// All four derivations of one commitment's keys succeed.
pub open spec fn all_keys_derive(
    per_commitment_point: Seq<u8>,
    a_delayed_payment_base: Seq<u8>,
    a_htlc_base: Seq<u8>,
    b_htlc_base: Seq<u8>,
    pcs: Seq<u8>,
    rbs: Seq<u8>,
    ad: Seq<u8>,
    ah: Seq<u8>,
    bh: Seq<u8>,
) -> bool {
    &&& revocation_key_derives(pcs, rbs)
    &&& public_key_derives(per_commitment_point, a_htlc_base, ah)
    &&& public_key_derives(per_commitment_point, b_htlc_base, bh)
    &&& public_key_derives(per_commitment_point, a_delayed_payment_base, ad)
}

impl TxCreationKeys {
    /// A key set from keys computed elsewhere.
    pub fn new(
        per_commitment_point_arg: [u8; 33],
        revocation_key_arg: [u8; 33],
        a_htlc_key_arg: [u8; 33],
        b_htlc_key_arg: [u8; 33],
        a_delayed_payment_key_arg: [u8; 33],
    ) -> (r: TxCreationKeys)
        ensures
            r.per_commitment_point == per_commitment_point_arg,
            r.revocation_key == revocation_key_arg,
            r.a_htlc_key == a_htlc_key_arg,
            r.b_htlc_key == b_htlc_key_arg,
            r.a_delayed_payment_key == a_delayed_payment_key_arg,
    {
        TxCreationKeys {
            per_commitment_point: per_commitment_point_arg,
            revocation_key: revocation_key_arg,
            a_htlc_key: a_htlc_key_arg,
            b_htlc_key: b_htlc_key_arg,
            a_delayed_payment_key: a_delayed_payment_key_arg,
        }
    }

    /// Derives the five keys of one commitment transaction from the per-commitment point and
    /// the basepoints. Fails only where a curve operation fails.
    pub fn derive_new(
        per_commitment_point: &[u8; 33],
        a_delayed_payment_base: &[u8; 33],
        a_htlc_base: &[u8; 33],
        b_revocation_base: &[u8; 33],
        b_htlc_base: &[u8; 33],
    ) -> (r: Result<TxCreationKeys, SecpError>)
        ensures
            forall|pcs: Seq<u8>, rbs: Seq<u8>, ad: Seq<u8>, ah: Seq<u8>, bh: Seq<u8>|
                secrets_behind(
                    per_commitment_point@,
                    a_delayed_payment_base@,
                    a_htlc_base@,
                    b_revocation_base@,
                    b_htlc_base@,
                    pcs,
                    rbs,
                    ad,
                    ah,
                    bh,
                ) ==> (r is Ok <==> #[trigger] all_keys_derive(
                    per_commitment_point@,
                    a_delayed_payment_base@,
                    a_htlc_base@,
                    b_htlc_base@,
                    pcs,
                    rbs,
                    ad,
                    ah,
                    bh,
                )),
            r matches Ok(keys) ==> keys_derived_from(
                keys,
                per_commitment_point@,
                a_delayed_payment_base@,
                a_htlc_base@,
                b_revocation_base@,
                b_htlc_base@,
            ),
    {
        let pcp = per_commitment_point;
        let revocation_key = match derive_public_revocation_key(pcp, b_revocation_base) {
            Ok(k) => k,
            Err(e) => {
                proof {
                    assert forall|pcs: Seq<u8>, rbs: Seq<u8>, ad: Seq<u8>, ah: Seq<u8>, bh: Seq<u8>|
                        secrets_behind(pcp@, a_delayed_payment_base@, a_htlc_base@, b_revocation_base@, b_htlc_base@, pcs, rbs, ad, ah, bh)
                        implies !#[trigger] all_keys_derive(pcp@, a_delayed_payment_base@, a_htlc_base@, b_htlc_base@, pcs, rbs, ad, ah, bh) by {
                        assert(!revocation_key_derives(pcs, rbs));
                    }
                }
                return Err(e);
            },
        };
        let a_htlc_key = match derive_public_key(pcp, a_htlc_base) {
            Ok(k) => k,
            Err(e) => {
                proof {
                    assert forall|pcs: Seq<u8>, rbs: Seq<u8>, ad: Seq<u8>, ah: Seq<u8>, bh: Seq<u8>|
                        secrets_behind(pcp@, a_delayed_payment_base@, a_htlc_base@, b_revocation_base@, b_htlc_base@, pcs, rbs, ad, ah, bh)
                        implies !#[trigger] all_keys_derive(pcp@, a_delayed_payment_base@, a_htlc_base@, b_htlc_base@, pcs, rbs, ad, ah, bh) by {
                        assert(!public_key_derives(pcp@, a_htlc_base@, ah));
                    }
                }
                return Err(e);
            },
        };
        let b_htlc_key = match derive_public_key(pcp, b_htlc_base) {
            Ok(k) => k,
            Err(e) => {
                proof {
                    assert forall|pcs: Seq<u8>, rbs: Seq<u8>, ad: Seq<u8>, ah: Seq<u8>, bh: Seq<u8>|
                        secrets_behind(pcp@, a_delayed_payment_base@, a_htlc_base@, b_revocation_base@, b_htlc_base@, pcs, rbs, ad, ah, bh)
                        implies !#[trigger] all_keys_derive(pcp@, a_delayed_payment_base@, a_htlc_base@, b_htlc_base@, pcs, rbs, ad, ah, bh) by {
                        assert(!public_key_derives(pcp@, b_htlc_base@, bh));
                    }
                }
                return Err(e);
            },
        };
        let a_delayed_payment_key = match derive_public_key(pcp, a_delayed_payment_base) {
            Ok(k) => k,
            Err(e) => {
                proof {
                    assert forall|pcs: Seq<u8>, rbs: Seq<u8>, ad: Seq<u8>, ah: Seq<u8>, bh: Seq<u8>|
                        secrets_behind(pcp@, a_delayed_payment_base@, a_htlc_base@, b_revocation_base@, b_htlc_base@, pcs, rbs, ad, ah, bh)
                        implies !#[trigger] all_keys_derive(pcp@, a_delayed_payment_base@, a_htlc_base@, b_htlc_base@, pcs, rbs, ad, ah, bh) by {
                        assert(!public_key_derives(pcp@, a_delayed_payment_base@, ad));
                    }
                }
                return Err(e);
            },
        };
        proof {
            assert forall|pcs: Seq<u8>, rbs: Seq<u8>, ad: Seq<u8>, ah: Seq<u8>, bh: Seq<u8>|
                secrets_behind(pcp@, a_delayed_payment_base@, a_htlc_base@, b_revocation_base@, b_htlc_base@, pcs, rbs, ad, ah, bh)
                implies #[trigger] all_keys_derive(pcp@, a_delayed_payment_base@, a_htlc_base@, b_htlc_base@, pcs, rbs, ad, ah, bh) by {
                assert(revocation_key_derives(pcs, rbs));
                assert(public_key_derives(pcp@, a_htlc_base@, ah));
                assert(public_key_derives(pcp@, b_htlc_base@, bh));
                assert(public_key_derives(pcp@, a_delayed_payment_base@, ad));
            }
        }
        Ok(
            TxCreationKeys {
                per_commitment_point: *per_commitment_point,
                revocation_key,
                a_htlc_key,
                b_htlc_key,
                a_delayed_payment_key,
            },
        )
    }
}

/// A per-commitment point with keys computed in advance. A signer that validates what it
/// signs should derive the keys itself rather than trust these.
#[derive(Debug, Clone, Copy)]
pub struct PreCalculatedTxCreationKeys {
    keys: TxCreationKeys,
}

impl PreCalculatedTxCreationKeys {
    /// The keys held.
    pub closed spec fn keys(&self) -> TxCreationKeys {
        self.keys
    }

    /// Wraps keys computed in advance.
    pub fn new(keys: TxCreationKeys) -> (r: PreCalculatedTxCreationKeys)
        ensures
            r.keys() == keys,
    {
        PreCalculatedTxCreationKeys { keys }
    }

    /// The keys, taken on trust.
    pub fn trust_key_derivation(&self) -> (r: &TxCreationKeys)
        ensures
            *r == self.keys(),
    {
        &self.keys
    }

    /// The per-commitment point of the keys.
    pub fn per_commitment_point(&self) -> (r: &[u8; 33])
        ensures
            *r == self.keys().per_commitment_point,
    {
        &self.keys.per_commitment_point
    }
}

} // verus!
