//! A commitment transaction of our own, held unsigned together with the counterparty's
//! signatures, and signed only when it is about to be broadcast.

use crate::crypto::{ecdsa_der_of, ecdsa_sign, valid_secret};
use crate::keys::{derive_private_key, derived_private_key, private_key_derives, TxCreationKeys};
use crate::script::{bytes_lt, get_htlc_redeemscript_with_explicit_keys, htlc_script, p2wsh_of, revokeable_script, HTLCOutputInCommitment};
use crate::transaction::{
    build_htlc_transaction, compute_txid, htlc_tx_fee, segwit_sighash, segwit_sighash_of,
    skeleton, txid_of, Tx, TxSkeleton,
};
use vstd::prelude::*;

verus! {

/// The skeleton of the second-stage transaction of a non-dust HTLC.
pub open spec fn htlc_tx_skeleton(
    prev_hash: Seq<u8>,
    feerate_per_kw: u32,
    to_self_delay: u16,
    htlc: HTLCOutputInCommitment,
    a_delayed_payment_key: Seq<u8>,
    revocation_key: Seq<u8>,
) -> TxSkeleton {
    (
        2i32,
        if htlc.offered {
            htlc.cltv_expiry
        } else {
            0u32
        },
        seq![(prev_hash, htlc.transaction_output_index->Some_0, 0u32)],
        seq![
            (
                (htlc.amount_msat / 1000 - htlc_tx_fee(htlc.offered, feerate_per_kw)) as u64,
                p2wsh_of(revokeable_script(revocation_key, to_self_delay, a_delayed_payment_key)),
            ),
        ],
    )
}

/// The HTLC list is consistent with a commitment transaction: every HTLC with an output
/// carries the counterparty's signature and is worth at least its second-stage fee; a dust
/// HTLC carries none.
pub open spec fn htlcs_consistent(
    per_htlc: Seq<(HTLCOutputInCommitment, Option<Vec<u8>>)>,
    feerate_per_kw: u32,
) -> bool {
    forall|i: int|
        0 <= i < per_htlc.len() ==> {
            let (htlc, sig) = #[trigger] per_htlc[i];
            &&& (htlc.transaction_output_index is Some <==> sig is Some)
            &&& htlc.transaction_output_index is Some ==> htlc.amount_msat / 1000 >= htlc_tx_fee(
                htlc.offered,
                feerate_per_kw,
            )
        }
}

/// Our signature on the second-stage transaction of a non-dust HTLC of the commitment
/// transaction `txid`.
pub open spec fn htlc_sig_spec(
    txid: Seq<u8>,
    feerate_per_kw: u32,
    local_csv: u16,
    htlc: HTLCOutputInCommitment,
    keys: TxCreationKeys,
    htlc_base_key: Seq<u8>,
) -> Seq<u8> {
    let tx = htlc_tx_skeleton(
        txid,
        feerate_per_kw,
        local_csv,
        htlc,
        keys.a_delayed_payment_key@,
        keys.revocation_key@,
    );
    let script = htlc_script(
        htlc.offered,
        htlc.cltv_expiry,
        htlc.payment_hash.0@,
        keys.a_htlc_key@,
        keys.b_htlc_key@,
        keys.revocation_key@,
    );
    ecdsa_der_of(
        segwit_sighash_of(tx, 0, script, htlc.amount_msat / 1000),
        derived_private_key(keys.per_commitment_point@, htlc_base_key),
    )
}

/// Our own commitment transaction, with the counterparty's signature over it and over each
/// non-dust HTLC's second-stage transaction. Our signatures are made on demand.
pub struct LocalCommitmentTransaction {
    unsigned_tx: Tx,
    their_sig: Vec<u8>,
    our_sig_first: bool,
    local_keys: TxCreationKeys,
    feerate_per_kw: u32,
    per_htlc: Vec<(HTLCOutputInCommitment, Option<Vec<u8>>)>,
}

impl LocalCommitmentTransaction {
    /// The unsigned commitment transaction.
    pub closed spec fn tx(&self) -> Tx {
        self.unsigned_tx
    }

    /// The counterparty's signature over the commitment transaction.
    pub closed spec fn their_sig_spec(&self) -> Seq<u8> {
        self.their_sig@
    }

    /// The keys of this commitment transaction.
    pub closed spec fn keys(&self) -> TxCreationKeys {
        self.local_keys
    }

    /// The feerate, per 1000 weight units.
    pub closed spec fn feerate(&self) -> u32 {
        self.feerate_per_kw
    }

    /// Whether our funding signature comes first in the witness.
    pub closed spec fn our_sig_first_spec(&self) -> bool {
        self.our_sig_first
    }

    /// Every HTLC, dust ones included, with the counterparty's signature where it has an
    /// output.
    pub closed spec fn htlcs(&self) -> Seq<(HTLCOutputInCommitment, Option<Vec<u8>>)> {
        self.per_htlc@
    }

    /// The invariant: one unsigned input, and an HTLC list consistent with the transaction.
    pub open spec fn wf(&self) -> bool {
        &&& self.tx().input@.len() == 1
        &&& self.tx().input@[0].witness@.len() == 0
        &&& htlcs_consistent(self.htlcs(), self.feerate())
    }

    /// Stores an unsigned commitment transaction with the counterparty's signatures. Its
    /// outputs must match `htlc_data`; only the shape is checked here, by the preconditions.
    pub fn new_missing_local_sig(
        unsigned_tx: Tx,
        their_sig: Vec<u8>,
        our_funding_key: &[u8; 33],
        their_funding_key: &[u8; 33],
        local_keys: TxCreationKeys,
        feerate_per_kw: u32,
        htlc_data: Vec<(HTLCOutputInCommitment, Option<Vec<u8>>)>,
    ) -> (r: LocalCommitmentTransaction)
        requires
            unsigned_tx.input@.len() == 1,
            unsigned_tx.input@[0].witness@.len() == 0,
            htlcs_consistent(htlc_data@, feerate_per_kw),
        ensures
            r.wf(),
            r.tx() == unsigned_tx,
            r.their_sig_spec() == their_sig@,
            r.our_sig_first_spec() == bytes_lt(our_funding_key@, their_funding_key@),
            r.keys() == local_keys,
            r.feerate() == feerate_per_kw,
            r.htlcs() == htlc_data@,
    {
        let our_sig_first = crate::script::lex_less(our_funding_key, their_funding_key);
        LocalCommitmentTransaction {
            unsigned_tx,
            their_sig,
            our_sig_first,
            local_keys,
            feerate_per_kw,
            per_htlc: htlc_data,
        }
    }

    /// The unsigned commitment transaction.
    pub fn unsigned_tx(&self) -> (r: &Tx)
        ensures
            *r == self.tx(),
    {
        &self.unsigned_tx
    }

    /// The counterparty's signature over the commitment transaction.
    pub fn their_sig(&self) -> (r: &Vec<u8>)
        ensures
            r@ == self.their_sig_spec(),
    {
        &self.their_sig
    }

    /// The feerate, per 1000 weight units.
    pub fn feerate_per_kw(&self) -> (r: u32)
        ensures
            r == self.feerate(),
    {
        self.feerate_per_kw
    }

    /// The HTLCs with the counterparty's signatures.
    pub fn per_htlc(&self) -> (r: &Vec<(HTLCOutputInCommitment, Option<Vec<u8>>)>)
        ensures
            r@ == self.htlcs(),
    {
        &self.per_htlc
    }

    /// The keys of this commitment transaction, taken on trust: a signer that validates what
    /// it signs should derive them itself.
    pub fn trust_key_derivation(&self) -> (r: &TxCreationKeys)
        ensures
            *r == self.keys(),
    {
        &self.local_keys
    }

    /// The id of the commitment transaction.
    pub fn txid(&self) -> (r: [u8; 32])
        ensures
            r@ == txid_of(skeleton(self.tx())),
    {
        compute_txid(&self.unsigned_tx)
    }

    /// Our signature over the commitment transaction's funding input, given our funding key,
    /// the funding redeem script and the channel value. It does not change the entity.
    pub fn get_local_sig(
        &self,
        funding_key: &[u8; 32],
        funding_redeemscript: &[u8],
        channel_value_satoshis: u64,
    ) -> (r: Vec<u8>)
        requires
            self.wf(),
            valid_secret(funding_key@),
        ensures
            r@ == ecdsa_der_of(
                segwit_sighash_of(
                    skeleton(self.tx()),
                    0,
                    funding_redeemscript@,
                    channel_value_satoshis,
                ),
                funding_key@,
            ),
    {
        let sighash = segwit_sighash(&self.unsigned_tx, 0, funding_redeemscript, channel_value_satoshis);
        ecdsa_sign(&sighash, funding_key)
    }

    /// Our signature for each HTLC, in the stored order: `None` for a dust HTLC, a signature
    /// over its second-stage transaction for every other. Fails where our HTLC key cannot be
    /// derived.
    pub fn get_htlc_sigs(&self, htlc_base_key: &[u8; 32], local_csv: u16) -> (r: Result<
        Vec<Option<Vec<u8>>>,
        (),
    >)
        requires
            self.wf(),
            valid_secret(htlc_base_key@),
        ensures
            r is Ok <==> private_key_derives(self.keys().per_commitment_point@, htlc_base_key@),
            r matches Ok(sigs) ==> {
                &&& sigs@.len() == self.htlcs().len()
                &&& forall|i: int|
                    0 <= i < sigs@.len() ==> {
                        let htlc = #[trigger] self.htlcs()[i].0;
                        &&& (sigs@[i] is None <==> htlc.transaction_output_index is None)
                        &&& sigs@[i] matches Some(s) ==> s@ == htlc_sig_spec(
                            txid_of(skeleton(self.tx())),
                            self.feerate(),
                            local_csv,
                            htlc,
                            self.keys(),
                            htlc_base_key@,
                        )
                    }
            },
    {
        let txid = self.txid();
        let our_htlc_key = match derive_private_key(&self.local_keys.per_commitment_point, htlc_base_key) {
            Ok(k) => k,
            Err(_) => return Err(()),
        };
        let mut ret: Vec<Option<Vec<u8>>> = Vec::new();
        let n = self.per_htlc.len();
        let mut i: usize = 0;
        while i < n
            invariant
                self.wf(),
                n == self.htlcs().len(),
                i <= n,
                ret@.len() == i,
                txid@ == txid_of(skeleton(self.tx())),
                our_htlc_key@ == derived_private_key(self.keys().per_commitment_point@, htlc_base_key@),
                valid_secret(our_htlc_key@),
                forall|j: int|
                    0 <= j < i ==> {
                        let htlc = #[trigger] self.htlcs()[j].0;
                        &&& (ret@[j] is None <==> htlc.transaction_output_index is None)
                        &&& ret@[j] matches Some(s) ==> s@ == htlc_sig_spec(
                            txid_of(skeleton(self.tx())),
                            self.feerate(),
                            local_csv,
                            htlc,
                            self.keys(),
                            htlc_base_key@,
                        )
                    },
            decreases n - i,
        {
            let htlc = &self.per_htlc[i].0;
            assert(self.htlcs()[i as int].0 == *htlc);
            if htlc.transaction_output_index.is_some() {
                let htlc_tx = build_htlc_transaction(
                    &txid,
                    self.feerate_per_kw,
                    local_csv,
                    htlc,
                    &self.local_keys.a_delayed_payment_key,
                    &self.local_keys.revocation_key,
                );
                let redeem = get_htlc_redeemscript_with_explicit_keys(
                    htlc,
                    &self.local_keys.a_htlc_key,
                    &self.local_keys.b_htlc_key,
                    &self.local_keys.revocation_key,
                );
                let sighash = segwit_sighash(&htlc_tx, 0, redeem.as_slice(), htlc.amount_msat / 1000);
                proof {
                    let sk = skeleton(htlc_tx);
                    let expected = htlc_tx_skeleton(
                        txid@,
                        self.feerate(),
                        local_csv,
                        *htlc,
                        self.keys().a_delayed_payment_key@,
                        self.keys().revocation_key@,
                    );
                    assert(sk.2 =~= expected.2);
                    assert(sk.3 =~= expected.3);
                    assert(sk == expected);
                }
                let sig = ecdsa_sign(&sighash, &our_htlc_key);
                ret.push(Some(sig));
            } else {
                ret.push(None);
            }
            i = i + 1;
        }
        Ok(ret)
    }
}

} // verus!
