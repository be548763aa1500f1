//! The commitment transaction of one state of the channel: it spends the funding output, and
//! its lock time and sequence carry the obscured commitment number.

use crate::crypto::{ripemd160, sha256};
use crate::keys::TxCreationKeys;
use crate::script::{
    get_htlc_redeemscript, hash160_of, htlc_script, p2wsh_of, revokeable_script,
    get_revokeable_redeemscript, to_p2wsh, HTLCOutputInCommitment,
};
use crate::transaction::{
    commitment_lock_time, commitment_sequence, output_skeleton, skeleton, OutPoint, Tx, TxInput,
    TxOutput,
};
use vstd::prelude::*;

verus! {

/// The pay-to-witness-public-key-hash script of a key.
pub open spec fn p2wpkh_of(key: Seq<u8>) -> Seq<u8> {
    seq![0u8, 20u8] + hash160_of(key)
}

/// The outputs of the two balances, each present where it reaches the dust limit: the owner's
/// revocable, delayed output, then the counterparty's immediate one.
pub open spec fn balance_outputs(
    to_local_value_sat: u64,
    to_remote_value_sat: u64,
    keys: TxCreationKeys,
    to_self_delay: u16,
    remote_payment_point: Seq<u8>,
    dust_limit_sat: u64,
) -> Seq<(u64, Seq<u8>)> {
    (if to_local_value_sat >= dust_limit_sat {
        seq![
            (
                to_local_value_sat,
                p2wsh_of(
                    revokeable_script(
                        keys.revocation_key@,
                        to_self_delay,
                        keys.a_delayed_payment_key@,
                    ),
                ),
            ),
        ]
    } else {
        Seq::empty()
    }) + (if to_remote_value_sat >= dust_limit_sat {
        seq![(to_remote_value_sat, p2wpkh_of(remote_payment_point))]
    } else {
        Seq::empty()
    })
}

/// An HTLC gets an output where its value in satoshis reaches the dust limit.
pub open spec fn is_non_dust(h: HTLCOutputInCommitment, dust_limit_sat: u64) -> bool {
    h.amount_msat / 1000 >= dust_limit_sat
}

/// The outputs of the non-dust HTLCs, in order.
pub open spec fn htlc_outputs(
    htlcs: Seq<HTLCOutputInCommitment>,
    dust_limit_sat: u64,
    keys: TxCreationKeys,
) -> Seq<(u64, Seq<u8>)>
    decreases htlcs.len(),
{
    if htlcs.len() == 0 {
        Seq::empty()
    } else {
        let rest = htlc_outputs(htlcs.drop_last(), dust_limit_sat, keys);
        let h = htlcs.last();
        if is_non_dust(h, dust_limit_sat) {
            rest.push(
                (
                    (h.amount_msat / 1000) as u64,
                    p2wsh_of(
                        htlc_script(
                            h.offered,
                            h.cltv_expiry,
                            h.payment_hash.0@,
                            keys.a_htlc_key@,
                            keys.b_htlc_key@,
                            keys.revocation_key@,
                        ),
                    ),
                ),
            )
        } else {
            rest
        }
    }
}

proof fn lemma_htlc_outputs_len(htlcs: Seq<HTLCOutputInCommitment>, dust_limit_sat: u64, keys: TxCreationKeys)
    ensures
        htlc_outputs(htlcs, dust_limit_sat, keys).len() <= htlcs.len(),
    decreases htlcs.len(),
{
    if htlcs.len() > 0 {
        lemma_htlc_outputs_len(htlcs.drop_last(), dust_limit_sat, keys);
    }
}

/// Builds the unsigned commitment transaction of commitment number `commitment_number` (at
/// most 48 bits) and assigns each non-dust HTLC its output index; dust HTLCs get none.
pub fn build_commitment_transaction(
    funding_outpoint: &OutPoint,
    commitment_number: u64,
    obscure_factor: u64,
    to_local_value_sat: u64,
    to_remote_value_sat: u64,
    keys: &TxCreationKeys,
    to_self_delay: u16,
    remote_payment_point: &[u8; 33],
    dust_limit_sat: u64,
    htlcs: &mut Vec<HTLCOutputInCommitment>,
) -> (r: Tx)
    requires
        commitment_number < 0x1_0000_0000_0000,
        obscure_factor < 0x1_0000_0000_0000,
        old(htlcs)@.len() + 2 <= 0xffff_ffff,
    ensures
        ({
            let base = balance_outputs(
                to_local_value_sat,
                to_remote_value_sat,
                *keys,
                to_self_delay,
                remote_payment_point@,
                dust_limit_sat,
            );
            let obscured = commitment_number ^ obscure_factor;
            &&& skeleton(r) == (
                2i32,
                commitment_lock_time(obscured),
                seq![(funding_outpoint.txid@, funding_outpoint.vout, commitment_sequence(obscured))],
                base + htlc_outputs(old(htlcs)@, dust_limit_sat, *keys),
            )
            &&& r.input@.len() == 1
            &&& r.input@[0].witness@.len() == 0
            &&& final(htlcs)@.len() == old(htlcs)@.len()
            &&& forall|i: int|
                0 <= i < old(htlcs)@.len() ==> {
                    let h = #[trigger] final(htlcs)@[i];
                    let o = old(htlcs)@[i];
                    &&& h.offered == o.offered
                    &&& h.amount_msat == o.amount_msat
                    &&& h.cltv_expiry == o.cltv_expiry
                    &&& h.payment_hash == o.payment_hash
                    &&& h.transaction_output_index == if is_non_dust(o, dust_limit_sat) {
                        Some(
                            (base.len() + htlc_outputs(
                                old(htlcs)@.take(i),
                                dust_limit_sat,
                                *keys,
                            ).len()) as u32,
                        )
                    } else {
                        None
                    }
                }
        }),
{
    let ghost base = balance_outputs(
        to_local_value_sat,
        to_remote_value_sat,
        *keys,
        to_self_delay,
        remote_payment_point@,
        dust_limit_sat,
    );
    let ghost orig = htlcs@;
    let obscured = commitment_number ^ obscure_factor;
    let lock_time = (0x2000_0000u64 | (obscured & 0xff_ffffu64)) as u32;
    let sequence = (0x8000_0000u64 | ((obscured >> 24u64) & 0xff_ffffu64)) as u32;
    let mut output: Vec<TxOutput> = Vec::new();
    if to_local_value_sat >= dust_limit_sat {
        let redeem = get_revokeable_redeemscript(&keys.revocation_key, to_self_delay, &keys.a_delayed_payment_key);
        output.push(TxOutput { value: to_local_value_sat, script_pubkey: to_p2wsh(redeem.as_slice()) });
    }
    if to_remote_value_sat >= dust_limit_sat {
        let h = sha256(remote_payment_point);
        let h160 = ripemd160(&h);
        let mut spk: Vec<u8> = Vec::new();
        spk.push(0u8);
        spk.push(20u8);
        spk.extend_from_slice(&h160);
        assert(spk@ =~= p2wpkh_of(remote_payment_point@));
        output.push(TxOutput { value: to_remote_value_sat, script_pubkey: spk });
    }
    assert(output@.map_values(|o: TxOutput| output_skeleton(o)) =~= base);
    let n = htlcs.len();
    let mut i: usize = 0;
    while i < n
        invariant
            n == orig.len(),
            n + 2 <= 0xffff_ffff,
            htlcs@.len() == n,
            i <= n,
            base.len() <= 2,
            output@.map_values(|o: TxOutput| output_skeleton(o)) == base + htlc_outputs(
                orig.take(i as int),
                dust_limit_sat,
                *keys,
            ),
            forall|j: int| i <= j < n ==> #[trigger] htlcs@[j] == orig[j],
            forall|j: int|
                0 <= j < i ==> {
                    let h = #[trigger] htlcs@[j];
                    let o = orig[j];
                    &&& h.offered == o.offered
                    &&& h.amount_msat == o.amount_msat
                    &&& h.cltv_expiry == o.cltv_expiry
                    &&& h.payment_hash == o.payment_hash
                    &&& h.transaction_output_index == if is_non_dust(o, dust_limit_sat) {
                        Some(
                            (base.len() + htlc_outputs(orig.take(j), dust_limit_sat, *keys).len()) as u32,
                        )
                    } else {
                        None
                    }
                },
        decreases n - i,
    {
        proof {
            assert(orig.take(i + 1).drop_last() =~= orig.take(i as int));
            assert(orig.take(i + 1).last() == orig[i as int]);
            lemma_htlc_outputs_len(orig.take(i as int), dust_limit_sat, *keys);
        }
        let mut h = htlcs[i];
        assert(h == orig[i as int]);
        let ghost prev_out = output@;
        if h.amount_msat / 1000 >= dust_limit_sat {
            let idx = output.len() as u32;
            let redeem = get_htlc_redeemscript(&h, keys);
            let spk = to_p2wsh(redeem.as_slice());
            let out = TxOutput { value: h.amount_msat / 1000, script_pubkey: spk };
            output.push(out);
            h.transaction_output_index = Some(idx);
            proof {
                let hs = htlc_outputs(orig.take(i + 1), dust_limit_sat, *keys);
                let hp = htlc_outputs(orig.take(i as int), dust_limit_sat, *keys);
                assert(hs == hp.push(output_skeleton(out)));
                assert(output@ == prev_out.push(out));
                assert(output@.map_values(|o: TxOutput| output_skeleton(o)) =~= prev_out.map_values(
                    |o: TxOutput| output_skeleton(o),
                ).push(output_skeleton(out)));
                assert(output@.map_values(|o: TxOutput| output_skeleton(o)) =~= base + htlc_outputs(
                    orig.take(i + 1),
                    dust_limit_sat,
                    *keys,
                ));
            }
        } else {
            h.transaction_output_index = None;
            proof {
                assert(output@.map_values(|o: TxOutput| output_skeleton(o)) =~= base + htlc_outputs(
                    orig.take(i + 1),
                    dust_limit_sat,
                    *keys,
                ));
            }
        }
        htlcs.set(i, h);
        i = i + 1;
    }
    assert(orig.take(n as int) =~= orig);
    let mut input: Vec<TxInput> = Vec::new();
    input.push(TxInput { previous_output: *funding_outpoint, sequence, witness: Vec::new() });
    let r = Tx { version: 2, lock_time, input, output };
    assert(skeleton(r).2 =~= seq![(funding_outpoint.txid@, funding_outpoint.vout, commitment_sequence(obscured))]);
    r
}

} // verus!
