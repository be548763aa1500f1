//! A signer holding a channel's secrets, and a wrapper that refuses to sign a counterparty
//! commitment transaction whose commitment number is neither the last one signed nor the
//! next.

use crate::crypto::{ecdsa_der_of, ecdsa_sign, sha256, sha256_of, valid_secret};
use crate::keys::{derive_private_key, derived_private_key, private_key_derives, TxCreationKeys};
use crate::local_commitment::{htlc_sig_spec, htlc_tx_skeleton};
use crate::script::{get_htlc_redeemscript, HTLCOutputInCommitment};
use crate::transaction::{
    build_htlc_transaction, compute_txid, HTLC_SUCCESS_TX_WEIGHT, HTLC_TIMEOUT_TX_WEIGHT, get_obscured_commitment_number, htlc_tx_fee,
    obscured_number_of, segwit_sighash, segwit_sighash_of, skeleton, txid_of, Tx,
};
use vstd::prelude::*;

verus! {

/// The channel's secret keys, held in memory.
pub struct InMemoryChannelKeys {
    funding_key: [u8; 32],
    revocation_base_key: [u8; 32],
    payment_base_key: [u8; 32],
    delayed_payment_base_key: [u8; 32],
    htlc_base_key: [u8; 32],
    commitment_seed: [u8; 32],
}

/// An HTLC that has an output is worth at least its second-stage fee.
pub open spec fn htlcs_payable(htlcs: Seq<HTLCOutputInCommitment>, feerate_per_kw: u32) -> bool {
    forall|i: int|
        0 <= i < htlcs.len() ==> (#[trigger] htlcs[i]).transaction_output_index is Some
            ==> htlcs[i].amount_msat / 1000 >= htlc_tx_fee(htlcs[i].offered, feerate_per_kw as u32)
}

/// Whether every HTLC with an output is worth at least its second-stage fee, as signing
/// requires.
pub fn check_htlcs_payable(htlcs: &[HTLCOutputInCommitment], feerate_per_kw: u32) -> (r: bool)
    ensures
        r == htlcs_payable(htlcs@, feerate_per_kw),
{
    let n = htlcs.len();
    let mut i: usize = 0;
    while i < n
        invariant
            n == htlcs@.len(),
            i <= n,
            forall|j: int|
                0 <= j < i ==> (#[trigger] htlcs@[j]).transaction_output_index is Some
                    ==> htlcs@[j].amount_msat / 1000 >= htlc_tx_fee(htlcs@[j].offered, feerate_per_kw),
        decreases n - i,
    {
        let h = &htlcs[i];
        if h.transaction_output_index.is_some() {
            let fee: u64 = if h.offered {
                feerate_per_kw as u64 * HTLC_TIMEOUT_TX_WEIGHT / 1000
            } else {
                feerate_per_kw as u64 * HTLC_SUCCESS_TX_WEIGHT / 1000
            };
            if h.amount_msat / 1000 < fee {
                return false;
            }
        }
        i = i + 1;
    }
    true
}

/// The indices of the HTLCs that have an output, in order.
pub open spec fn non_dust_indices(htlcs: Seq<HTLCOutputInCommitment>) -> Seq<int>
    decreases htlcs.len(),
{
    if htlcs.len() == 0 {
        Seq::empty()
    } else {
        let rest = non_dust_indices(htlcs.drop_last());
        if htlcs.last().transaction_output_index is Some {
            rest.push(htlcs.len() - 1)
        } else {
            rest
        }
    }
}

impl InMemoryChannelKeys {
    /// The funding secret key.
    pub closed spec fn funding_key_spec(&self) -> Seq<u8> {
        self.funding_key@
    }

    /// The HTLC base secret key.
    pub closed spec fn htlc_base_key_spec(&self) -> Seq<u8> {
        self.htlc_base_key@
    }

    /// The revocation base secret key.
    pub closed spec fn revocation_base_key_spec(&self) -> Seq<u8> {
        self.revocation_base_key@
    }

    /// The payment base secret key.
    pub closed spec fn payment_base_key_spec(&self) -> Seq<u8> {
        self.payment_base_key@
    }

    /// The delayed-payment base secret key.
    pub closed spec fn delayed_payment_base_key_spec(&self) -> Seq<u8> {
        self.delayed_payment_base_key@
    }

    /// The commitment seed.
    pub closed spec fn commitment_seed_spec(&self) -> Seq<u8> {
        self.commitment_seed@
    }

    /// Every secret key is a valid key.
    pub open spec fn wf(&self) -> bool {
        &&& valid_secret(self.funding_key_spec())
        &&& valid_secret(self.revocation_base_key_spec())
        &&& valid_secret(self.payment_base_key_spec())
        &&& valid_secret(self.delayed_payment_base_key_spec())
        &&& valid_secret(self.htlc_base_key_spec())
    }

    /// Holds the channel's secrets.
    pub fn new(
        funding_key: [u8; 32],
        revocation_base_key: [u8; 32],
        payment_base_key: [u8; 32],
        delayed_payment_base_key: [u8; 32],
        htlc_base_key: [u8; 32],
        commitment_seed: [u8; 32],
    ) -> (r: InMemoryChannelKeys)
        requires
            valid_secret(funding_key@),
            valid_secret(revocation_base_key@),
            valid_secret(payment_base_key@),
            valid_secret(delayed_payment_base_key@),
            valid_secret(htlc_base_key@),
        ensures
            r.wf(),
            r.funding_key_spec() == funding_key@,
            r.revocation_base_key_spec() == revocation_base_key@,
            r.payment_base_key_spec() == payment_base_key@,
            r.delayed_payment_base_key_spec() == delayed_payment_base_key@,
            r.htlc_base_key_spec() == htlc_base_key@,
            r.commitment_seed_spec() == commitment_seed@,
    {
        InMemoryChannelKeys {
            funding_key,
            revocation_base_key,
            payment_base_key,
            delayed_payment_base_key,
            htlc_base_key,
            commitment_seed,
        }
    }

    /// The funding secret key.
    pub fn funding_key(&self) -> (r: &[u8; 32])
        ensures
            r@ == self.funding_key_spec(),
    {
        &self.funding_key
    }

    /// The revocation base secret key.
    pub fn revocation_base_key(&self) -> (r: &[u8; 32])
        ensures
            r@ == self.revocation_base_key_spec(),
    {
        &self.revocation_base_key
    }

    /// The payment base secret key.
    pub fn payment_base_key(&self) -> (r: &[u8; 32])
        ensures
            r@ == self.payment_base_key_spec(),
    {
        &self.payment_base_key
    }

    /// The delayed-payment base secret key.
    pub fn delayed_payment_base_key(&self) -> (r: &[u8; 32])
        ensures
            r@ == self.delayed_payment_base_key_spec(),
    {
        &self.delayed_payment_base_key
    }

    /// The HTLC base secret key.
    pub fn htlc_base_key(&self) -> (r: &[u8; 32])
        ensures
            r@ == self.htlc_base_key_spec(),
    {
        &self.htlc_base_key
    }

    /// The commitment seed.
    pub fn commitment_seed(&self) -> (r: &[u8; 32])
        ensures
            r@ == self.commitment_seed_spec(),
    {
        &self.commitment_seed
    }

    /// Signs a counterparty's commitment transaction and the second-stage transaction of each
    /// of its non-dust HTLCs, in order. Fails on a transaction without exactly one input, or
    /// where our HTLC key cannot be derived.
    pub fn sign_remote_commitment(
        &self,
        channel_value_satoshis: u64,
        channel_funding_script: &[u8],
        feerate_per_kw: u32,
        commitment_tx: &Tx,
        keys: &TxCreationKeys,
        htlcs: &[HTLCOutputInCommitment],
        to_self_delay: u16,
    ) -> (r: Result<(Vec<u8>, Vec<Vec<u8>>), ()>)
        requires
            self.wf(),
            htlcs_payable(htlcs@, feerate_per_kw),
        ensures
            r is Err <==> (commitment_tx.input@.len() != 1 || !private_key_derives(
                keys.per_commitment_point@,
                self.htlc_base_key_spec(),
            )),
            r matches Ok((sig, htlc_sigs)) ==> {
                let txid = txid_of(skeleton(*commitment_tx));
                let idx = non_dust_indices(htlcs@);
                &&& sig@ == ecdsa_der_of(
                    segwit_sighash_of(
                        skeleton(*commitment_tx),
                        0,
                        channel_funding_script@,
                        channel_value_satoshis,
                    ),
                    self.funding_key_spec(),
                )
                &&& htlc_sigs@.len() == idx.len()
                &&& forall|j: int|
                    0 <= j < idx.len() ==> (#[trigger] htlc_sigs@[j])@ == remote_htlc_sig(
                        txid,
                        feerate_per_kw,
                        to_self_delay,
                        htlcs@[idx[j]],
                        *keys,
                        self.htlc_base_key_spec(),
                    )
            },
    {
        if commitment_tx.input.len() != 1 {
            return Err(());
        }
        let sighash = segwit_sighash(commitment_tx, 0, channel_funding_script, channel_value_satoshis);
        let commitment_sig = ecdsa_sign(&sighash, &self.funding_key);
        let txid = compute_txid(commitment_tx);
        let our_htlc_key = match derive_private_key(&keys.per_commitment_point, &self.htlc_base_key) {
            Ok(k) => k,
            Err(_) => return Err(()),
        };
        let mut htlc_sigs: Vec<Vec<u8>> = Vec::new();
        let n = htlcs.len();
        let mut i: usize = 0;
        while i < n
            invariant
                self.wf(),
                n == htlcs@.len(),
                i <= n,
                htlcs_payable(htlcs@, feerate_per_kw),
                txid@ == txid_of(skeleton(*commitment_tx)),
                our_htlc_key@ == derived_private_key(keys.per_commitment_point@, self.htlc_base_key_spec()),
                valid_secret(our_htlc_key@),
                htlc_sigs@.len() == non_dust_indices(htlcs@.subrange(0, i as int)).len(),
                forall|j: int|
                    0 <= j < htlc_sigs@.len() ==> (#[trigger] htlc_sigs@[j])@ == remote_htlc_sig(
                        txid@,
                        feerate_per_kw,
                        to_self_delay,
                        htlcs@[non_dust_indices(htlcs@.subrange(0, i as int))[j]],
                        *keys,
                        self.htlc_base_key_spec(),
                    ),
                forall|j: int|
                    0 <= j < non_dust_indices(htlcs@.subrange(0, i as int)).len() ==> 0
                        <= #[trigger] non_dust_indices(htlcs@.subrange(0, i as int))[j] < i,
            decreases n - i,
        {
            let ghost before = htlcs@.subrange(0, i as int);
            let ghost after = htlcs@.subrange(0, i + 1);
            proof {
                assert(after.drop_last() =~= before);
                lemma_non_dust_indices_bounded(before);
            }
            let htlc = &htlcs[i];
            if htlc.transaction_output_index.is_some() {
                let htlc_tx = build_htlc_transaction(
                    &txid,
                    feerate_per_kw,
                    to_self_delay,
                    htlc,
                    &keys.a_delayed_payment_key,
                    &keys.revocation_key,
                );
                let redeem = get_htlc_redeemscript(htlc, keys);
                let sighash = segwit_sighash(&htlc_tx, 0, redeem.as_slice(), htlc.amount_msat / 1000);
                proof {
                    let sk = skeleton(htlc_tx);
                    let expected = htlc_tx_skeleton(
                        txid@,
                        feerate_per_kw,
                        to_self_delay,
                        *htlc,
                        keys.a_delayed_payment_key@,
                        keys.revocation_key@,
                    );
                    assert(sk.2 =~= expected.2);
                    assert(sk.3 =~= expected.3);
                    assert(sk == expected);
                }
                let sig = ecdsa_sign(&sighash, &our_htlc_key);
                htlc_sigs.push(sig);
                proof {
                    assert(non_dust_indices(after) == non_dust_indices(before).push(i as int));
                }
            } else {
                proof {
                    assert(non_dust_indices(after) == non_dust_indices(before));
                }
            }
            i = i + 1;
        }
        proof {
            assert(htlcs@.subrange(0, n as int) =~= htlcs@);
        }
        Ok((commitment_sig, htlc_sigs))
    }

    /// Signs a closing transaction spending the funding output.
    pub fn sign_closing_transaction(
        &self,
        channel_value_satoshis: u64,
        channel_funding_redeemscript: &[u8],
        closing_tx: &Tx,
    ) -> (r: Result<Vec<u8>, ()>)
        requires
            self.wf(),
        ensures
            r is Err <==> closing_tx.input@.len() == 0,
            r matches Ok(sig) ==> sig@ == ecdsa_der_of(
                segwit_sighash_of(
                    skeleton(*closing_tx),
                    0,
                    channel_funding_redeemscript@,
                    channel_value_satoshis,
                ),
                self.funding_key_spec(),
            ),
    {
        if closing_tx.input.len() == 0 {
            return Err(());
        }
        let sighash = segwit_sighash(closing_tx, 0, channel_funding_redeemscript, channel_value_satoshis);
        Ok(ecdsa_sign(&sighash, &self.funding_key))
    }

    /// Signs the encoded contents of a channel announcement: the double SHA-256 of the bytes.
    pub fn sign_channel_announcement(&self, msg: &[u8]) -> (r: Vec<u8>)
        requires
            self.wf(),
        ensures
            r@ == ecdsa_der_of(sha256_of(sha256_of(msg@)), self.funding_key_spec()),
    {
        let h = sha256(msg);
        let hh = sha256(&h);
        ecdsa_sign(&hh, &self.funding_key)
    }
}

/// Our signature on the second-stage transaction of a non-dust HTLC of a counterparty's
/// commitment transaction `txid`.
pub open spec fn remote_htlc_sig(
    txid: Seq<u8>,
    feerate_per_kw: u32,
    to_self_delay: u16,
    htlc: HTLCOutputInCommitment,
    keys: TxCreationKeys,
    htlc_base_key: Seq<u8>,
) -> Seq<u8> {
    htlc_sig_spec(txid, feerate_per_kw, to_self_delay, htlc, keys, htlc_base_key)
}

proof fn lemma_non_dust_indices_bounded(htlcs: Seq<HTLCOutputInCommitment>)
    ensures
        forall|j: int|
            0 <= j < non_dust_indices(htlcs).len() ==> 0 <= #[trigger] non_dust_indices(htlcs)[j]
                < htlcs.len(),
    decreases htlcs.len(),
{
    if htlcs.len() > 0 {
        let rest = non_dust_indices(htlcs.drop_last());
        lemma_non_dust_indices_bounded(htlcs.drop_last());
        assert forall|j: int| 0 <= j < non_dust_indices(htlcs).len() implies 0
            <= #[trigger] non_dust_indices(htlcs)[j] < htlcs.len() by {
            if j < rest.len() {
                assert(non_dust_indices(htlcs)[j] == rest[j]);
            }
        }
    }
}

/// The commitment-number state of the enforcing signer: the mask learnt from the first
/// transaction signed, and the highest commitment number signed so far.
#[derive(Debug, Clone, Copy, PartialEq, Eq, Structural)]
pub struct CommitmentGuard {
    /// The mask that obscures commitment numbers, once learnt.
    pub obscure_factor: Option<u64>,
    /// The highest commitment number signed (commitment numbers start at 0).
    pub last_signed: u64,
}

/// The mask in force for an obscured number: the one learnt, or on the first signature the
/// one that makes the number equal the starting counter.
pub open spec fn factor_for(g: CommitmentGuard, obscured: u64) -> u64 {
    match g.obscure_factor {
        Some(f) => f,
        None => obscured ^ g.last_signed,
    }
}

/// The commitment number that an obscured number stands for.
pub open spec fn commitment_number_for(g: CommitmentGuard, obscured: u64) -> u64 {
    obscured ^ factor_for(g, obscured)
}

/// The signer signs a commitment transaction only at the last number signed or the next one.
pub open spec fn accepts(g: CommitmentGuard, obscured: u64) -> bool {
    let n = commitment_number_for(g, obscured);
    n == g.last_signed || n == g.last_signed + 1
}

/// The state after signing at an accepted obscured number.
pub open spec fn advanced(g: CommitmentGuard, obscured: u64) -> CommitmentGuard {
    let n = commitment_number_for(g, obscured);
    CommitmentGuard {
        obscure_factor: Some(factor_for(g, obscured)),
        last_signed: if n > g.last_signed {
            n
        } else {
            g.last_signed
        },
    }
}

impl CommitmentGuard {
    /// The state before anything is signed.
    pub fn new() -> (r: CommitmentGuard)
        ensures
            r.obscure_factor is None,
            r.last_signed == 0,
    {
        CommitmentGuard { obscure_factor: None, last_signed: 0 }
    }

    /// Whether a commitment transaction carrying `obscured` may be signed.
    pub fn accepts(&self, obscured: u64) -> (r: bool)
        ensures
            r == accepts(*self, obscured),
    {
        let factor = match self.obscure_factor {
            Some(f) => f,
            None => obscured ^ self.last_signed,
        };
        let n = obscured ^ factor;
        n == self.last_signed || (self.last_signed < u64::MAX && n == self.last_signed + 1)
    }

    /// Decides on a commitment transaction carrying `obscured`: where it may be signed, records
    /// it as `advance` does and returns `true`; otherwise leaves the state as it is and returns
    /// `false`, and the caller must abort rather than sign.
    pub fn check_and_advance(&mut self, obscured: u64) -> (r: bool)
        ensures
            r == accepts(*old(self), obscured),
            r ==> *final(self) == advanced(*old(self), obscured),
            !r ==> *final(self) == *old(self),
    {
        if self.accepts(obscured) {
            self.advance(obscured);
            true
        } else {
            false
        }
    }

    /// Records a signature at an accepted obscured number: learns the mask on the first one
    /// and raises the high-water mark.
    pub fn advance(&mut self, obscured: u64)
        requires
            accepts(*old(self), obscured),
        ensures
            *final(self) == advanced(*old(self), obscured),
    {
        let factor = match self.obscure_factor {
            Some(f) => f,
            None => obscured ^ self.last_signed,
        };
        let n = obscured ^ factor;
        self.obscure_factor = Some(factor);
        if n > self.last_signed {
            self.last_signed = n;
        }
    }
}

/// At an accepted number the high-water mark never moves back and moves forward by at most
/// one; a number two or more away from the last one signed, either way, is refused.
pub proof fn lemma_guard_accepts_only_same_or_next(g: CommitmentGuard, obscured: u64)
    ensures
        accepts(g, obscured) <==> (commitment_number_for(g, obscured) == g.last_signed
            || commitment_number_for(g, obscured) == g.last_signed + 1),
        commitment_number_for(g, obscured) + 2 <= g.last_signed ==> !accepts(g, obscured),
        commitment_number_for(g, obscured) >= g.last_signed + 2 ==> !accepts(g, obscured),
        accepts(g, obscured) ==> advanced(g, obscured).last_signed >= g.last_signed
            && advanced(g, obscured).last_signed <= g.last_signed + 1,
{
}

/// Signer wrapper that enforces commitment-number monotonicity before it delegates: it never
/// signs two different counterparty commitment transactions at one height, nor one at a
/// height below the last signed.
pub struct EnforcingChannelKeys {
    inner: InMemoryChannelKeys,
    guard: CommitmentGuard,
}

impl EnforcingChannelKeys {
    /// The commitment-number state.
    pub closed spec fn guard_spec(&self) -> CommitmentGuard {
        self.guard
    }

    /// The signer it delegates to.
    pub closed spec fn inner_spec(&self) -> InMemoryChannelKeys {
        self.inner
    }

    /// The signer it delegates to.
    pub fn inner(&self) -> (r: &InMemoryChannelKeys)
        ensures
            *r == self.inner_spec(),
    {
        &self.inner
    }

    /// Wraps a signer; nothing has been signed yet.
    pub fn new(inner: InMemoryChannelKeys) -> (r: EnforcingChannelKeys)
        ensures
            r.inner_spec() == inner,
            r.guard_spec() == (CommitmentGuard { obscure_factor: None, last_signed: 0 }),
    {
        EnforcingChannelKeys { inner, guard: CommitmentGuard::new() }
    }

    /// The commitment-number state.
    pub fn guard(&self) -> (r: CommitmentGuard)
        ensures
            r == self.guard_spec(),
    {
        self.guard
    }

    /// Whether `commitment_tx` may be signed: it has one input and its commitment number is
    /// the last one signed or the next. A caller must not ask for a signature otherwise.
    pub fn can_sign_remote_commitment(&self, commitment_tx: &Tx) -> (r: bool)
        ensures
            r == (commitment_tx.input@.len() == 1 && accepts(
                self.guard_spec(),
                obscured_number_of(commitment_tx.lock_time, commitment_tx.input@[0].sequence),
            )),
    {
        if commitment_tx.input.len() != 1 {
            return false;
        }
        let obscured = get_obscured_commitment_number(commitment_tx);
        self.guard.accepts(obscured)
    }

    /// Checks the commitment number of a counterparty's commitment transaction, raises the
    /// high-water mark, then has the inner signer sign. The number must be the last one
    /// signed or the next: anything else is a fatal invariant violation, ruled out here by the
    /// precondition.
    pub fn sign_remote_commitment(
        &mut self,
        channel_value_satoshis: u64,
        channel_funding_script: &[u8],
        feerate_per_kw: u32,
        commitment_tx: &Tx,
        keys: &TxCreationKeys,
        htlcs: &[HTLCOutputInCommitment],
        to_self_delay: u16,
    ) -> (r: Result<(Vec<u8>, Vec<Vec<u8>>), ()>)
        requires
            old(self).inner_spec().wf(),
            htlcs_payable(htlcs@, feerate_per_kw),
            commitment_tx.input@.len() == 1,
            accepts(
                old(self).guard_spec(),
                obscured_number_of(commitment_tx.lock_time, commitment_tx.input@[0].sequence),
            ),
        ensures
            final(self).inner_spec() == old(self).inner_spec(),
            final(self).guard_spec() == advanced(
                old(self).guard_spec(),
                obscured_number_of(commitment_tx.lock_time, commitment_tx.input@[0].sequence),
            ),
            r is Ok <==> private_key_derives(
                keys.per_commitment_point@,
                old(self).inner_spec().htlc_base_key_spec(),
            ),
            r matches Ok((sig, htlc_sigs)) ==> {
                let txid = txid_of(skeleton(*commitment_tx));
                let idx = non_dust_indices(htlcs@);
                &&& sig@ == ecdsa_der_of(
                    segwit_sighash_of(
                        skeleton(*commitment_tx),
                        0,
                        channel_funding_script@,
                        channel_value_satoshis,
                    ),
                    old(self).inner_spec().funding_key_spec(),
                )
                &&& htlc_sigs@.len() == idx.len()
                &&& forall|j: int|
                    0 <= j < idx.len() ==> (#[trigger] htlc_sigs@[j])@ == remote_htlc_sig(
                        txid,
                        feerate_per_kw,
                        to_self_delay,
                        htlcs@[idx[j]],
                        *keys,
                        old(self).inner_spec().htlc_base_key_spec(),
                    )
            },
    {
        let obscured = get_obscured_commitment_number(commitment_tx);
        self.guard.advance(obscured);
        self.inner.sign_remote_commitment(
            channel_value_satoshis,
            channel_funding_script,
            feerate_per_kw,
            commitment_tx,
            keys,
            htlcs,
            to_self_delay,
        )
    }

    /// Signs a closing transaction through the inner signer.
    pub fn sign_closing_transaction(
        &self,
        channel_value_satoshis: u64,
        channel_funding_redeemscript: &[u8],
        closing_tx: &Tx,
    ) -> (r: Result<Vec<u8>, ()>)
        requires
            self.inner_spec().wf(),
        ensures
            r is Err <==> closing_tx.input@.len() == 0,
            r matches Ok(sig) ==> sig@ == ecdsa_der_of(
                segwit_sighash_of(
                    skeleton(*closing_tx),
                    0,
                    channel_funding_redeemscript@,
                    channel_value_satoshis,
                ),
                self.inner_spec().funding_key_spec(),
            ),
    {
        self.inner.sign_closing_transaction(channel_value_satoshis, channel_funding_redeemscript, closing_tx)
    }

    /// Signs the encoded contents of a channel announcement through the inner signer.
    pub fn sign_channel_announcement(&self, msg: &[u8]) -> (r: Vec<u8>)
        requires
            self.inner_spec().wf(),
        ensures
            r@ == ecdsa_der_of(sha256_of(sha256_of(msg@)), self.inner_spec().funding_key_spec()),
    {
        self.inner.sign_channel_announcement(msg)
    }
}

} // verus!
